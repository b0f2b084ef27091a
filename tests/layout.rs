use minirust::layout::{DeclError, ElemTy, FieldTy, Layouts};
use minirust::scalar::RuntimeError;
use minirust::storage::Step;

const SCALAR: FieldTy = FieldTy::One { ty: ElemTy::Scalar };

#[test]
fn point_and_line_offsets() {
    let (point, line, x, y, from, to) = (10, 11, 0, 1, 2, 3);
    let mut layouts = Layouts::new();
    assert_eq!(layouts.declare(point, vec![(x, SCALAR), (y, SCALAR)]), Ok(0));
    let p = FieldTy::One { ty: ElemTy::Struct { id: 0 } };
    assert_eq!(layouts.declare(line, vec![(from, p), (to, p)]), Ok(1));
    assert_eq!(layouts.structs[0].size, 2);
    assert_eq!(layouts.structs[1].size, 4);
    assert_eq!(layouts.field_step(1, from), Ok((Step::Field { offset: 0 }, p)));
    assert_eq!(layouts.field_step(1, to), Ok((Step::Field { offset: 2 }, p)));
    assert_eq!(layouts.field_step(0, y), Ok((Step::Field { offset: 1 }, SCALAR)));
    assert_eq!(layouts.find(line), Some(1));
    assert_eq!(layouts.find(99), None);
    assert_eq!(layouts.elem_slots(ElemTy::Struct { id: 1 }), 4);
}

#[test]
fn array_field_size() {
    let mut layouts = Layouts::new();
    assert_eq!(layouts.declare(0, vec![(0, SCALAR), (1, SCALAR)]), Ok(0));
    let puntos = FieldTy::Array { elem: ElemTy::Struct { id: 0 }, len: 3 };
    assert_eq!(layouts.declare(1, vec![(5, puntos), (6, SCALAR)]), Ok(1));
    assert_eq!(layouts.structs[1].size, 7);
    assert_eq!(layouts.field_step(1, 6), Ok((Step::Field { offset: 6 }, SCALAR)));
}

#[test]
fn declaration_errors() {
    let mut layouts = Layouts::new();
    assert_eq!(layouts.declare(0, vec![(0, SCALAR)]), Ok(0));
    assert_eq!(
        layouts.declare(0, vec![(0, SCALAR)]),
        Err(DeclError::DuplicateDeclaration)
    );
    assert_eq!(
        layouts.declare(1, vec![(0, SCALAR), (0, SCALAR)]),
        Err(DeclError::DuplicateDeclaration)
    );
    assert_eq!(
        layouts.declare(1, vec![(0, FieldTy::One { ty: ElemTy::Struct { id: 1 } })]),
        Err(DeclError::UnknownType)
    );
    assert_eq!(
        layouts.declare(1, vec![(0, FieldTy::Array { elem: ElemTy::Scalar, len: usize::MAX }), (1, SCALAR)]),
        Err(DeclError::TooLarge)
    );
    assert_eq!(layouts.structs.len(), 1);
    assert_eq!(layouts.field_step(0, 7), Err(RuntimeError::NoSuchField));
}

#[test]
fn empty_struct() {
    let mut layouts = Layouts::new();
    assert_eq!(layouts.declare(3, vec![]), Ok(0));
    assert_eq!(layouts.structs[0].size, 0);
    assert_eq!(layouts.field_step(0, 0), Err(RuntimeError::NoSuchField));
}
