use vstd::prelude::*;

use crate::scalar::{RuntimeError, Scalar};

verus! {

/// The decimal digit character of `d`.
pub open spec fn digit_char(d: nat) -> char
    recommends
        d < 10,
{
    (('0' as u8) + d) as char
}

/// The decimal digits of `n`, most significant first, without leading zeros.
pub open spec fn decimal(n: nat) -> Seq<char>
    decreases n,
{
    if n < 10 {
        seq![digit_char(n)]
    } else {
        decimal(n / 10).push(digit_char(n % 10))
    }
}

/// The text of an integer: a minus sign before the digits of a negative one.
pub open spec fn int_text(v: int) -> Seq<char> {
    if v < 0 {
        seq!['-'].add(decimal((-v) as nat))
    } else {
        decimal(v as nat)
    }
}

/// The text that printing a scalar gives; `strings` is the program's table
/// of string literals.
pub open spec fn scalar_text(s: Scalar, strings: Seq<Seq<char>>) -> Result<Seq<char>, RuntimeError> {
    match s {
        Scalar::Int { width, v } => Ok(int_text(v as int)),
        Scalar::Str { id } => if id < strings.len() {
            Ok(strings[id as int])
        } else {
            Err(RuntimeError::Unprintable)
        },
        Scalar::Unit => Err(RuntimeError::Unprintable),
    }
}

/// The digits of a magnitude.
fn digits(n: u64) -> (r: Vec<char>)
    ensures
        r@ == decimal(n as nat),
    decreases n,
{
    if n < 10 {
        let c = ((48u8 + n as u8) as char);
        let mut v: Vec<char> = Vec::new();
        v.push(c);
        v
    } else {
        let mut v = digits(n / 10);
        v.push(((48u8 + (n % 10) as u8) as char));
        v
    }
}

/// The decimal text of a 64-bit integer.
pub fn int_to_text(v: i64) -> (r: Vec<char>)
    ensures
        r@ == int_text(v as int),
{
    if v < 0 {
        let m: u64 = (-(v as i128)) as u64;
        let mut r: Vec<char> = Vec::new();
        r.push('-');
        let mut d = digits(m);
        r.append(&mut d);
        r
    } else {
        digits(v as u64)
    }
}

/// The text that the print primitive substitutes for its placeholder.
pub fn render(s: Scalar, strings: &Vec<Vec<char>>) -> (r: Result<Vec<char>, RuntimeError>)
    ensures
        match scalar_text(s, strings@.map_values(|t: Vec<char>| t@)) {
            Ok(t) => r is Ok && r->Ok_0@ == t,
            Err(e) => r == Err::<Vec<char>, RuntimeError>(e),
        },
{
    match s {
        Scalar::Int { width, v } => Ok(int_to_text(v)),
        Scalar::Str { id } => {
            if id < strings.len() {
                Ok(strings[id].clone())
            } else {
                Err(RuntimeError::Unprintable)
            }
        },
        Scalar::Unit => Err(RuntimeError::Unprintable),
    }
}

/// The lines that printing the values gives, in order, or the first error.
pub open spec fn lines_upto(out: Seq<Scalar>, strings: Seq<Seq<char>>, n: nat) -> Result<Seq<Seq<char>>, RuntimeError>
    decreases n,
{
    if n == 0 {
        Ok(Seq::empty())
    } else {
        match lines_upto(out, strings, (n - 1) as nat) {
            Err(e) => Err(e),
            Ok(ls) => match scalar_text(out[n - 1], strings) {
                Ok(t) => Ok(ls.push(t)),
                Err(e) => Err(e),
            },
        }
    }
}

/// An error on a prefix of the values is the error of every longer prefix.
proof fn lemma_lines_error_persists(out: Seq<Scalar>, strings: Seq<Seq<char>>, n: nat, m: nat)
    requires
        n <= m,
        lines_upto(out, strings, n) is Err,
    ensures
        lines_upto(out, strings, m) == lines_upto(out, strings, n),
    decreases m - n,
{
    if n < m {
        lemma_lines_error_persists(out, strings, n, (m - 1) as nat);
    }
}

/// Turns printed values into the output's lines.
pub fn render_lines(out: &Vec<Scalar>, strings: &Vec<Vec<char>>) -> (r: Result<Vec<Vec<char>>, RuntimeError>)
    ensures
        match lines_upto(out@, strings@.map_values(|t: Vec<char>| t@), out@.len()) {
            Ok(ls) => r is Ok && r->Ok_0@.map_values(|t: Vec<char>| t@) == ls,
            Err(e) => r == Err::<Vec<Vec<char>>, RuntimeError>(e),
        },
{
    let ghost st = strings@.map_values(|t: Vec<char>| t@);
    let mut lines: Vec<Vec<char>> = Vec::new();
    let mut i: usize = 0;
    assert(lines@.map_values(|t: Vec<char>| t@) =~= Seq::<Seq<char>>::empty());
    while i < out.len()
        invariant
            i <= out@.len(),
            st == strings@.map_values(|t: Vec<char>| t@),
            lines_upto(out@, st, i as nat) == Ok::<Seq<Seq<char>>, RuntimeError>(
                lines@.map_values(|t: Vec<char>| t@),
            ),
        decreases out@.len() - i,
    {
        match render(out[i], strings) {
            Ok(t) => {
                let ghost before = lines@;
                lines.push(t);
                assert(lines@.map_values(|t: Vec<char>| t@) =~= before.map_values(
                    |t: Vec<char>| t@,
                ).push(t@));
            },
            Err(e) => {
                proof {
                    lemma_lines_error_persists(out@, st, (i + 1) as nat, out@.len());
                }
                return Err(e);
            },
        }
        i = i + 1;
    }
    Ok(lines)
}

} // verus!
