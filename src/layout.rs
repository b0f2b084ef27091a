use vstd::prelude::*;

use crate::scalar::RuntimeError;
use crate::storage::Step;

verus! {

/// The type of a struct field or an array element: a scalar (integer or
/// string) or a struct declared earlier, by its index.
#[derive(Clone, Copy, Debug, PartialEq, Eq, Structural)]
pub enum ElemTy {
    Scalar,
    Struct { id: usize },
}

/// The declared type of a field.
#[derive(Clone, Copy, Debug, PartialEq, Eq, Structural)]
pub enum FieldTy {
    One { ty: ElemTy },
    Array { elem: ElemTy, len: usize },
}

/// Why a struct declaration is refused.
#[derive(Clone, Copy, Debug, PartialEq, Eq, Structural)]
pub enum DeclError {
    DuplicateDeclaration,
    UnknownType,
    TooLarge,
}

/// A declared struct: its name, its fields in order, and how many scalar
/// slots a value of it takes once flattened.
pub struct StructLayout {
    pub name: usize,
    pub fields: Vec<(usize, FieldTy)>,
    pub size: usize,
}

/// The registry of struct layouts, in order of declaration.
pub struct Layouts {
    pub structs: Vec<StructLayout>,
}

/// Slots taken by an element type, given the sizes of the declared structs.
pub open spec fn elem_size(sizes: Seq<usize>, t: ElemTy) -> int {
    match t {
        ElemTy::Scalar => 1,
        ElemTy::Struct { id } => sizes[id as int] as int,
    }
}

/// Slots taken by a field type.
pub open spec fn field_size(sizes: Seq<usize>, t: FieldTy) -> int {
    match t {
        FieldTy::One { ty } => elem_size(sizes, ty),
        FieldTy::Array { elem, len } => elem_size(sizes, elem) * len,
    }
}

/// Slots taken by the first `n` fields: the offset of field `n`.
pub open spec fn offset_of(sizes: Seq<usize>, fields: Seq<(usize, FieldTy)>, n: int) -> int
    decreases n,
{
    if n <= 0 {
        0
    } else {
        offset_of(sizes, fields, n - 1) + field_size(sizes, fields[n - 1].1)
    }
}

/// Whether a type names only structs among the first `n` declared.
pub open spec fn known(t: FieldTy, n: int) -> bool {
    match t {
        FieldTy::One { ty } => ty matches ElemTy::Struct { id } ==> id < n,
        FieldTy::Array { elem, len } => elem matches ElemTy::Struct { id } ==> id < n,
    }
}

/// Position of the first field named `name` among the first `n`, or -1.
pub open spec fn field_index(fields: Seq<(usize, FieldTy)>, name: usize, n: int) -> int
    decreases n,
{
    if n <= 0 {
        -1
    } else if field_index(fields, name, n - 1) != -1 {
        field_index(fields, name, n - 1)
    } else if fields[n - 1].0 == name {
        n - 1
    } else {
        -1
    }
}

/// Whether two of the fields share a name.
pub open spec fn has_duplicate_field(fields: Seq<(usize, FieldTy)>) -> bool {
    exists|i: int, j: int| 0 <= i < j < fields.len() && fields[i].0 == fields[j].0
}

/// Field sizes are never negative.
proof fn lemma_field_size_nonneg(sizes: Seq<usize>, t: FieldTy)
    ensures
        field_size(sizes, t) >= 0,
{
    if let FieldTy::Array { elem, len } = t {
        let e = elem_size(sizes, elem);
        assert(e * len >= 0) by (nonlinear_arith)
            requires
                e >= 0,
                len >= 0,
        ;
    }
}

/// Offsets are never negative and grow with the field count.
proof fn lemma_offset_monotone(sizes: Seq<usize>, fields: Seq<(usize, FieldTy)>, a: int, b: int)
    requires
        0 <= a <= b <= fields.len(),
    ensures
        0 <= offset_of(sizes, fields, a) <= offset_of(sizes, fields, b),
    decreases b,
{
    if b > 0 {
        lemma_field_size_nonneg(sizes, fields[b - 1].1);
        if a < b {
            lemma_offset_monotone(sizes, fields, a, b - 1);
        } else {
            lemma_offset_monotone(sizes, fields, a - 1, b - 1);
        }
    }
}

/// The first field of a name stays the first as more fields are looked at.
proof fn lemma_field_index_stable(fields: Seq<(usize, FieldTy)>, name: usize, a: int, b: int)
    requires
        0 <= a <= b,
        field_index(fields, name, a) != -1,
    ensures
        field_index(fields, name, b) == field_index(fields, name, a),
    decreases b,
{
    if a < b {
        lemma_field_index_stable(fields, name, a, b - 1);
    }
}

/// Offsets read only the sizes of the structs that the fields name.
proof fn lemma_offset_stable(
    s1: Seq<usize>,
    s2: Seq<usize>,
    fields: Seq<(usize, FieldTy)>,
    m: int,
    n: int,
)
    requires
        0 <= n <= fields.len(),
        m <= s1.len(),
        m <= s2.len(),
        forall|i: int| 0 <= i < m ==> s1[i] == s2[i],
        forall|k: int| 0 <= k < fields.len() ==> known(#[trigger] fields[k].1, m),
    ensures
        offset_of(s1, fields, n) == offset_of(s2, fields, n),
    decreases n,
{
    if n > 0 {
        lemma_offset_stable(s1, s2, fields, m, n - 1);
        assert(known(fields[n - 1].1, m));
    }
}

impl Layouts {
    /// The sizes of the declared structs, in order.
    pub open spec fn sizes(&self) -> Seq<usize> {
        self.structs@.map_values(|s: StructLayout| s.size)
    }

    /// The names of the declared structs, in order.
    pub open spec fn names(&self) -> Seq<usize> {
        self.structs@.map_values(|s: StructLayout| s.name)
    }

    /// Each struct's size is the sum of its fields' sizes, and its fields
    /// name only structs declared before it.
    pub open spec fn wf(&self) -> bool {
        forall|i: int|
            0 <= i < self.structs@.len() ==> {
                let s = #[trigger] self.structs@[i];
                &&& s.size == offset_of(self.sizes(), s.fields@, s.fields@.len() as int)
                &&& forall|k: int| 0 <= k < s.fields@.len() ==> known(#[trigger] s.fields@[k].1, i)
            }
    }

    /// Slots taken by an element type.
    pub fn elem_slots(&self, t: ElemTy) -> (r: usize)
        requires
            t matches ElemTy::Struct { id } ==> id < self.structs@.len(),
        ensures
            r == elem_size(self.sizes(), t),
    {
        match t {
            ElemTy::Scalar => 1,
            ElemTy::Struct { id } => self.structs[id].size,
        }
    }

    /// The position of the struct declared with `name`, if any.
    pub fn find(&self, name: usize) -> (r: Option<usize>)
        ensures
            match r {
                Some(i) => i < self.structs@.len() && self.names()[i as int] == name,
                None => !self.names().contains(name),
            },
    {
        let mut i: usize = 0;
        while i < self.structs.len()
            invariant
                i <= self.structs@.len(),
                forall|k: int| 0 <= k < i ==> self.names()[k] != name,
            decreases self.structs@.len() - i,
        {
            if self.structs[i].name == name {
                return Some(i);
            }
            i = i + 1;
        }
        None
    }

    /// An empty registry.
    pub fn new() -> (r: Layouts)
        ensures
            r.wf(),
            r.structs@.len() == 0,
    {
        Layouts { structs: Vec::new() }
    }
}

/// Whether two of the first `n` fields share a name.
fn duplicate_field(fields: &Vec<(usize, FieldTy)>) -> (r: bool)
    ensures
        r == has_duplicate_field(fields@),
{
    let mut j: usize = 0;
    while j < fields.len()
        invariant
            j <= fields@.len(),
            forall|a: int, b: int| 0 <= a < b < j ==> fields@[a].0 != fields@[b].0,
        decreases fields@.len() - j,
    {
        let mut i: usize = 0;
        while i < j
            invariant
                i <= j < fields@.len(),
                forall|a: int| 0 <= a < i ==> fields@[a].0 != fields@[j as int].0,
            decreases j - i,
        {
            if fields[i].0 == fields[j].0 {
                return true;
            }
            i = i + 1;
        }
        j = j + 1;
    }
    false
}

impl Layouts {
    /// Declares a struct. Refused, leaving the registry as it was: a name
    /// declared before, or two fields of one name, is a duplicate; a field
    /// naming a struct not declared before is an unknown type; a value too
    /// large to address is too large. Otherwise the struct gets the next index.
    pub fn declare(&mut self, name: usize, fields: Vec<(usize, FieldTy)>) -> (r: Result<usize, DeclError>)
        requires
            old(self).wf(),
        ensures
            final(self).wf(),
            ({
                let n = old(self).structs@.len() as int;
                let dup = old(self).names().contains(name) || has_duplicate_field(fields@);
                let unknown = exists|k: int| 0 <= k < fields@.len() && !known(#[trigger] fields@[k].1, n);
                let size = offset_of(old(self).sizes(), fields@, fields@.len() as int);
                &&& dup ==> r == Err::<usize, DeclError>(DeclError::DuplicateDeclaration)
                &&& (!dup && unknown) ==> r == Err::<usize, DeclError>(DeclError::UnknownType)
                &&& (!dup && !unknown && size > usize::MAX) ==> r == Err::<usize, DeclError>(
                    DeclError::TooLarge,
                )
                &&& r is Err ==> final(self).structs@ == old(self).structs@
                &&& (!dup && !unknown && size <= usize::MAX) ==> {
                    &&& r == Ok::<usize, DeclError>(n as usize)
                    &&& final(self).structs@.len() == n + 1
                    &&& final(self).structs@.subrange(0, n) == old(self).structs@
                    &&& final(self).names()[n] == name
                    &&& final(self).structs@[n].fields@ == fields@
                    &&& final(self).sizes()[n] == size
                }
            }),
    {
        if self.find(name).is_some() || duplicate_field(&fields) {
            return Err(DeclError::DuplicateDeclaration);
        }
        let n = self.structs.len();
        let ghost sizes = self.sizes();
        let mut k: usize = 0;
        while k < fields.len()
            invariant
                n == self.structs@.len(),
                self.structs@ == old(self).structs@,
                self.wf(),
                !old(self).names().contains(name),
                !has_duplicate_field(fields@),
                k <= fields@.len(),
                forall|a: int| 0 <= a < k ==> known(#[trigger] fields@[a].1, n as int),
            decreases fields@.len() - k,
        {
            let elem = match fields[k].1 {
                FieldTy::One { ty } => ty,
                FieldTy::Array { elem, len } => elem,
            };
            if let ElemTy::Struct { id } = elem {
                if id >= n {
                    assert(!known(fields@[k as int].1, n as int));
                    return Err(DeclError::UnknownType);
                }
            }
            k = k + 1;
        }
        let mut total: u128 = 0;
        let mut k: usize = 0;
        while k < fields.len()
            invariant
                n == self.structs@.len(),
                self.structs@ == old(self).structs@,
                self.wf(),
                !old(self).names().contains(name),
                !has_duplicate_field(fields@),
                sizes == self.sizes(),
                k <= fields@.len(),
                forall|a: int| 0 <= a < fields@.len() ==> known(#[trigger] fields@[a].1, n as int),
                total == offset_of(sizes, fields@, k as int),
                total <= usize::MAX,
            decreases fields@.len() - k,
        {
            let (elem, count) = match fields[k].1 {
                FieldTy::One { ty } => (ty, 1usize),
                FieldTy::Array { elem, len } => (elem, len),
            };
            assert(known(fields@[k as int].1, n as int));
            let e = self.elem_slots(elem);
            proof {
                assert((e as int) * (count as int) <= 0xffff_ffff_ffff_ffff * 0xffff_ffff_ffff_ffff)
                    by (nonlinear_arith)
                    requires
                        0 <= e <= 0xffff_ffff_ffff_ffff,
                        0 <= count <= 0xffff_ffff_ffff_ffff,
                ;
                assert((e as int) * (count as int) >= 0) by (nonlinear_arith)
                    requires
                        0 <= e,
                        0 <= count,
                ;
            }
            let next: u128 = total + (e as u128) * (count as u128);
            if next > usize::MAX as u128 {
                proof {
                    lemma_offset_monotone(sizes, fields@, k + 1, fields@.len() as int);
                }
                return Err(DeclError::TooLarge);
            }
            total = next;
            k = k + 1;
        }
        let ghost fv = fields@;
        self.structs.push(StructLayout { name, fields, size: total as usize });
        proof {
            let ns = self.sizes();
            assert(ns.subrange(0, n as int) =~= sizes);
            assert forall|i: int| 0 <= i < self.structs@.len() implies {
                let s = #[trigger] self.structs@[i];
                &&& s.size == offset_of(ns, s.fields@, s.fields@.len() as int)
                &&& forall|k: int| 0 <= k < s.fields@.len() ==> known(#[trigger] s.fields@[k].1, i)
            } by {
                let s = self.structs@[i];
                if i < n {
                    assert(s == old(self).structs@[i]);
                    lemma_offset_stable(sizes, ns, s.fields@, i, s.fields@.len() as int);
                } else {
                    lemma_offset_stable(sizes, ns, fv, n as int, fv.len() as int);
                }
            }
            assert(self.structs@.subrange(0, n as int) =~= old(self).structs@);
        }
        Ok(n)
    }

    /// The offset and type of a field of a declared struct.
    pub fn field_step(&self, id: usize, field: usize) -> (r: Result<(Step, FieldTy), RuntimeError>)
        requires
            self.wf(),
            id < self.structs@.len(),
        ensures
            ({
                let fs = self.structs@[id as int].fields@;
                let k = field_index(fs, field, fs.len() as int);
                &&& k == -1 ==> r == Err::<(Step, FieldTy), RuntimeError>(RuntimeError::NoSuchField)
                &&& k != -1 ==> r == Ok::<(Step, FieldTy), RuntimeError>(
                    (Step::Field { offset: offset_of(self.sizes(), fs, k) as usize }, fs[k].1),
                )
            }),
    {
        let fields = &self.structs[id].fields;
        let ghost fs = fields@;
        let mut offset: usize = 0;
        let mut k: usize = 0;
        let ghost sizes = self.sizes();
        assert(self.structs@[id as int].size == offset_of(sizes, fs, fs.len() as int));
        while k < fields.len()
            invariant
                self.wf(),
                id < self.structs@.len(),
                sizes == self.sizes(),
                fs == self.structs@[id as int].fields@,
                k <= fs.len(),
                fs == fields@,
                field_index(fs, field, k as int) == -1,
                offset == offset_of(sizes, fs, k as int),
                self.structs@[id as int].size == offset_of(sizes, fs, fs.len() as int),
            decreases fs.len() - k,
        {
            if fields[k].0 == field {
                proof {
                    lemma_field_index_stable(fs, field, k + 1, fs.len() as int);
                }
                return Ok((Step::Field { offset }, fields[k].1));
            }
            assert(known(fs[k as int].1, id as int));
            proof {
                lemma_offset_monotone(sizes, fs, k + 1, fs.len() as int);
                lemma_field_size_nonneg(sizes, fs[k as int].1);
            }
            let (elem, count) = match fields[k].1 {
                FieldTy::One { ty } => (ty, 1usize),
                FieldTy::Array { elem, len } => (elem, len),
            };
            let e = self.elem_slots(elem);
            proof {
                assert(offset_of(sizes, fs, k + 1) == offset_of(sizes, fs, k as int) + field_size(
                    sizes,
                    fs[k as int].1,
                ));
                assert(field_size(sizes, fs[k as int].1) == e * count);
                assert(offset + e * count <= usize::MAX);
            }
            offset = offset + e * count;
            k = k + 1;
        }
        Err(RuntimeError::NoSuchField)
    }
}

} // verus!
