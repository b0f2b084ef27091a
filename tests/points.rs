use minirust::points::{build, hola, quotient, restar, Punto};

#[test]
fn punto_add_overload_case() {
    let p3 = Punto { x: 1, y: 2 }.add(Punto { x: 3, y: 4 });
    assert_eq!(p3, Punto { x: 4, y: 6 });
}

#[test]
fn punto_add_then_sub() {
    let p1 = Punto { x: 1, y: 2 };
    let p3 = p1.add(Punto { x: 3, y: 4 });
    let p4 = p3.sub(p1);
    assert_eq!(p4, Punto { x: 3, y: 4 });
}

#[test]
fn punto_sub_negative() {
    let p3 = Punto { x: 1, y: 2 }.sub(Punto { x: 3, y: 4 });
    assert_eq!(p3, Punto { x: -2, y: -2 });
}

#[test]
fn punto_div_truncates() {
    let p3 = Punto { x: 1, y: 2 }.div(Punto { x: 3, y: 4 });
    assert_eq!(p3, Punto { x: 0, y: 0 });
    let q = Punto { x: -7, y: 7 }.div(Punto { x: 2, y: -2 });
    assert_eq!(q, Punto { x: -3, y: -3 });
}

#[test]
fn quotient_rounds_toward_zero() {
    assert_eq!(quotient(6, 2), 3);
    assert_eq!(quotient(-7, 2), -3);
    assert_eq!(quotient(7, -2), -3);
    assert_eq!(quotient(-7, -2), 3);
    assert_eq!(quotient(i64::MIN, 1), i64::MIN);
    assert_eq!(quotient(i64::MIN, 2), i64::MIN / 2);
}

#[test]
fn restar_plain_function() {
    let p3 = restar(Punto { x: 10, y: 20 }, Punto { x: 3, y: 7 });
    assert_eq!(p3, Punto { x: 7, y: 13 });
}

#[test]
fn hola_swaps() {
    assert_eq!(hola(), [20, 10]);
}

#[test]
fn build_min_max() {
    assert_eq!(build(), [12, 30]);
}
