use minirust::numbers::{fac, fib, FAC_MAX_ARG, FIB_MAX_ARG};

#[test]
fn fib_of_ten_is_55() {
    assert_eq!(fib(10), 55);
}

#[test]
fn fib_small_values() {
    let expected: [i64; 12] = [0, 1, 1, 2, 3, 5, 8, 13, 21, 34, 55, 89];
    for (n, want) in expected.iter().enumerate() {
        assert_eq!(fib(n as i64), *want);
    }
}

#[test]
fn fib_below_two_is_identity() {
    assert_eq!(fib(-3), -3);
    assert_eq!(fib(0), 0);
    assert_eq!(fib(1), 1);
}

#[test]
fn fib_limit_is_92() {
    assert_eq!(FIB_MAX_ARG, 92);
}

#[test]
fn fac_one_to_nineteen() {
    let mut want: i64 = 1;
    let mut x: i64 = 1;
    while x < 20 {
        if x >= 2 {
            want *= x;
        }
        assert_eq!(fac(x), want);
        x += 1;
    }
    assert_eq!(fac(19), 121645100408832000);
}

#[test]
fn fac_largest_fitting() {
    assert_eq!(FAC_MAX_ARG, 20);
    assert_eq!(fac(20), 2432902008176640000);
}

#[test]
fn fac_below_two_is_identity() {
    assert_eq!(fac(0), 0);
    assert_eq!(fac(1), 1);
}
