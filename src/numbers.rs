use vstd::prelude::*;

verus! {

/// The Fibonacci function by its double recursion: `n` itself below 2.
pub open spec fn fib_spec(n: int) -> int
    decreases n,
{
    if n < 2 {
        n
    } else {
        fib_spec(n - 1) + fib_spec(n - 2)
    }
}

/// Factorial by its recursion: `n` itself below 2.
pub open spec fn fac_spec(n: int) -> int
    decreases n,
{
    if n < 2 {
        n
    } else {
        fac_spec(n - 1) * n
    }
}

/// Largest argument whose Fibonacci number fits in an `i64`.
pub const FIB_MAX_ARG: i64 = 92;

/// Largest argument whose factorial fits in an `i64`.
pub const FAC_MAX_ARG: i64 = 20;

/// The Fibonacci numbers are non-decreasing from 0 on.
pub proof fn lemma_fib_monotone(a: int, b: int)
    requires
        0 <= a <= b,
    ensures
        0 <= fib_spec(a) <= fib_spec(b),
    decreases b,
{
    if a < b {
        if b >= 2 {
            lemma_fib_monotone(a, b - 1);
            lemma_fib_nonneg(b - 2);
        }
    }
    lemma_fib_nonneg(a);
}

/// Fibonacci numbers of non-negative arguments are non-negative.
pub proof fn lemma_fib_nonneg(n: int)
    requires
        0 <= n,
    ensures
        fib_spec(n) >= 0,
    decreases n,
{
    if n >= 2 {
        lemma_fib_nonneg(n - 1);
        lemma_fib_nonneg(n - 2);
    }
}

/// The Fibonacci number of the largest argument that fits.
pub proof fn lemma_fib_top()
    ensures
        fib_spec(FIB_MAX_ARG as int) == 7540113804746346429,
{
    assert(fib_spec(0) == 0);
    assert(fib_spec(1) == 1);
    assert(fib_spec(2) == 1);
    assert(fib_spec(3) == 2);
    assert(fib_spec(4) == 3);
    assert(fib_spec(5) == 5);
    assert(fib_spec(6) == 8);
    assert(fib_spec(7) == 13);
    assert(fib_spec(8) == 21);
    assert(fib_spec(9) == 34);
    assert(fib_spec(10) == 55);
    assert(fib_spec(11) == 89);
    assert(fib_spec(12) == 144);
    assert(fib_spec(13) == 233);
    assert(fib_spec(14) == 377);
    assert(fib_spec(15) == 610);
    assert(fib_spec(16) == 987);
    assert(fib_spec(17) == 1597);
    assert(fib_spec(18) == 2584);
    assert(fib_spec(19) == 4181);
    assert(fib_spec(20) == 6765);
    assert(fib_spec(21) == 10946);
    assert(fib_spec(22) == 17711);
    assert(fib_spec(23) == 28657);
    assert(fib_spec(24) == 46368);
    assert(fib_spec(25) == 75025);
    assert(fib_spec(26) == 121393);
    assert(fib_spec(27) == 196418);
    assert(fib_spec(28) == 317811);
    assert(fib_spec(29) == 514229);
    assert(fib_spec(30) == 832040);
    assert(fib_spec(31) == 1346269);
    assert(fib_spec(32) == 2178309);
    assert(fib_spec(33) == 3524578);
    assert(fib_spec(34) == 5702887);
    assert(fib_spec(35) == 9227465);
    assert(fib_spec(36) == 14930352);
    assert(fib_spec(37) == 24157817);
    assert(fib_spec(38) == 39088169);
    assert(fib_spec(39) == 63245986);
    assert(fib_spec(40) == 102334155);
    assert(fib_spec(41) == 165580141);
    assert(fib_spec(42) == 267914296);
    assert(fib_spec(43) == 433494437);
    assert(fib_spec(44) == 701408733);
    assert(fib_spec(45) == 1134903170);
    assert(fib_spec(46) == 1836311903);
    assert(fib_spec(47) == 2971215073);
    assert(fib_spec(48) == 4807526976);
    assert(fib_spec(49) == 7778742049);
    assert(fib_spec(50) == 12586269025);
    assert(fib_spec(51) == 20365011074);
    assert(fib_spec(52) == 32951280099);
    assert(fib_spec(53) == 53316291173);
    assert(fib_spec(54) == 86267571272);
    assert(fib_spec(55) == 139583862445);
    assert(fib_spec(56) == 225851433717);
    assert(fib_spec(57) == 365435296162);
    assert(fib_spec(58) == 591286729879);
    assert(fib_spec(59) == 956722026041);
    assert(fib_spec(60) == 1548008755920);
    assert(fib_spec(61) == 2504730781961);
    assert(fib_spec(62) == 4052739537881);
    assert(fib_spec(63) == 6557470319842);
    assert(fib_spec(64) == 10610209857723);
    assert(fib_spec(65) == 17167680177565);
    assert(fib_spec(66) == 27777890035288);
    assert(fib_spec(67) == 44945570212853);
    assert(fib_spec(68) == 72723460248141);
    assert(fib_spec(69) == 117669030460994);
    assert(fib_spec(70) == 190392490709135);
    assert(fib_spec(71) == 308061521170129);
    assert(fib_spec(72) == 498454011879264);
    assert(fib_spec(73) == 806515533049393);
    assert(fib_spec(74) == 1304969544928657);
    assert(fib_spec(75) == 2111485077978050);
    assert(fib_spec(76) == 3416454622906707);
    assert(fib_spec(77) == 5527939700884757);
    assert(fib_spec(78) == 8944394323791464);
    assert(fib_spec(79) == 14472334024676221);
    assert(fib_spec(80) == 23416728348467685);
    assert(fib_spec(81) == 37889062373143906);
    assert(fib_spec(82) == 61305790721611591);
    assert(fib_spec(83) == 99194853094755497);
    assert(fib_spec(84) == 160500643816367088);
    assert(fib_spec(85) == 259695496911122585);
    assert(fib_spec(86) == 420196140727489673);
    assert(fib_spec(87) == 679891637638612258);
    assert(fib_spec(88) == 1100087778366101931);
    assert(fib_spec(89) == 1779979416004714189);
    assert(fib_spec(90) == 2880067194370816120);
    assert(fib_spec(91) == 4660046610375530309);
    assert(fib_spec(92) == 7540113804746346429);
}

/// The factorial of the largest argument that fits.
pub proof fn lemma_fac_values()
    ensures
        fac_spec(FAC_MAX_ARG as int) == 2432902008176640000,
{
    assert(fac_spec(1) == 1);
    assert(fac_spec(2) == 2);
    assert(fac_spec(3) == 6);
    assert(fac_spec(4) == 24);
    assert(fac_spec(5) == 120);
    assert(fac_spec(6) == 720);
    assert(fac_spec(7) == 5040);
    assert(fac_spec(8) == 40320);
    assert(fac_spec(9) == 362880);
    assert(fac_spec(10) == 3628800);
    assert(fac_spec(11) == 39916800);
    assert(fac_spec(12) == 479001600);
    assert(fac_spec(13) == 6227020800);
    assert(fac_spec(14) == 87178291200);
    assert(fac_spec(15) == 1307674368000);
    assert(fac_spec(16) == 20922789888000);
    assert(fac_spec(17) == 355687428096000);
    assert(fac_spec(18) == 6402373705728000);
    assert(fac_spec(19) == 121645100408832000);
    assert(fac_spec(20) == 2432902008176640000);
}

/// Factorials of non-negative arguments are non-negative.
pub proof fn lemma_fac_nonneg(n: int)
    requires
        0 <= n,
    ensures
        fac_spec(n) >= 0,
    decreases n,
{
    if n >= 2 {
        lemma_fac_nonneg(n - 1);
        assert(fac_spec(n - 1) * n >= 0) by (nonlinear_arith)
            requires
                fac_spec(n - 1) >= 0,
                n >= 2,
        ;
    }
}

/// Factorials are non-decreasing from 0 on.
pub proof fn lemma_fac_monotone(a: int, b: int)
    requires
        0 <= a <= b,
    ensures
        0 <= fac_spec(a) <= fac_spec(b),
    decreases b,
{
    lemma_fac_nonneg(a);
    if a < b {
        lemma_fac_monotone(a, b - 1);
        if b >= 2 {
            lemma_fac_nonneg(b - 1);
            assert(fac_spec(b - 1) <= fac_spec(b - 1) * b) by (nonlinear_arith)
                requires
                    fac_spec(b - 1) >= 0,
                    b >= 2,
            ;
        }
    }
}

/// Fibonacci by the plain double recursion.
pub fn fib(n: i64) -> (r: i64)
    requires
        n <= FIB_MAX_ARG,
    ensures
        r == fib_spec(n as int),
    decreases n,
{
    if n < 2 {
        n
    } else {
        proof {
            lemma_fib_top();
            lemma_fib_monotone(n as int, FIB_MAX_ARG as int);
            lemma_fib_nonneg(n - 1);
            lemma_fib_nonneg(n - 2);
        }
        fib(n - 1) + fib(n - 2)
    }
}

/// Factorial by plain recursion, in 64-bit width.
pub fn fac(n: i64) -> (r: i64)
    requires
        n <= FAC_MAX_ARG,
    ensures
        r == fac_spec(n as int),
    decreases n,
{
    if n < 2 {
        n
    } else {
        proof {
            lemma_fac_values();
            lemma_fac_monotone(n as int, FAC_MAX_ARG as int);
        }
        fac(n - 1) * n
    }
}

/// `fib(10)` is 55.
pub proof fn lemma_fib_ten()
    ensures
        fib_spec(10) == 55,
{
    assert(fib_spec(0) == 0);
    assert(fib_spec(1) == 1);
    assert(fib_spec(2) == 1);
    assert(fib_spec(3) == 2);
    assert(fib_spec(4) == 3);
    assert(fib_spec(5) == 5);
    assert(fib_spec(6) == 8);
    assert(fib_spec(7) == 13);
    assert(fib_spec(8) == 21);
    assert(fib_spec(9) == 34);
}

/// Every factorial from 1 to 19 fits in 64 bits, and each is the previous one times its argument.
pub proof fn lemma_fac_fits(x: int)
    requires
        1 <= x <= 19,
    ensures
        1 <= fac_spec(x) <= i64::MAX,
        x >= 2 ==> fac_spec(x) == fac_spec(x - 1) * x,
{
    lemma_fac_values();
    lemma_fac_monotone(x, FAC_MAX_ARG as int);
    lemma_fac_monotone(1, x);
}

} // verus!
