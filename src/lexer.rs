use vstd::prelude::*;

verus! {

/// The class of a token.
#[derive(Clone, Copy, Debug, PartialEq, Eq, Structural)]
pub enum TokKind {
    Ident,
    Int,
    Str,
    Op,
}

/// A token: its class and the byte range `start..end` of its text.
#[derive(Clone, Copy, Debug, PartialEq, Eq, Structural)]
pub struct Token {
    pub kind: TokKind,
    pub start: usize,
    pub end: usize,
}

/// Why lexing stopped, at byte `pos`.
#[derive(Clone, Copy, Debug, PartialEq, Eq, Structural)]
pub enum LexError {
    /// A byte that starts no token.
    Unrecognized { pos: usize },
    /// A string literal with no closing quote.
    Unterminated { pos: usize },
}

pub open spec fn is_space(c: u8) -> bool {
    c == 32 || c == 9 || c == 10 || c == 13
}

pub open spec fn is_digit(c: u8) -> bool {
    48 <= c <= 57
}

pub open spec fn is_ident_start(c: u8) -> bool {
    (65 <= c <= 90) || (97 <= c <= 122) || c == 95
}

pub open spec fn is_ident_char(c: u8) -> bool {
    is_ident_start(c) || is_digit(c)
}

/// Operator and punctuation bytes: `! & ( ) * + , - . / : ; < = > [ ] { | }`.
pub open spec fn is_op_char(c: u8) -> bool {
    c == 33 || c == 38 || c == 40 || c == 41 || c == 42 || c == 43 || c == 44 || c == 45
        || c == 46 || c == 47 || c == 58 || c == 59 || c == 60 || c == 61 || c == 62 || c == 91
        || c == 93 || c == 123 || c == 124 || c == 125
}

/// Two-byte operators: `<= >= == != -> ::`.
pub open spec fn is_two_char_op(a: u8, b: u8) -> bool {
    (b == 61 && (a == 60 || a == 62 || a == 61 || a == 33)) || (a == 45 && b == 62) || (a == 58
        && b == 58)
}

/// Whether byte `i` of `s` starts a line comment `//`.
pub open spec fn comment_at(s: Seq<u8>, i: int) -> bool {
    0 <= i && i + 1 < s.len() && s[i] == 47 && s[i + 1] == 47
}

/// Whether byte `i` lies in a line comment that begins at or after `a`.
pub open spec fn in_comment(s: Seq<u8>, a: int, i: int) -> bool {
    exists|j: int| a <= j <= i && #[trigger] comment_at(s, j) && forall|k: int| j <= k <= i ==> s[k] != 10
}

/// Every byte in `a..b` is white space or part of a line comment begun there.
pub open spec fn skippable(s: Seq<u8>, a: int, b: int) -> bool {
    forall|i: int| a <= i < b ==> is_space(#[trigger] s[i]) || in_comment(s, a, i)
}

/// Whether a token is well formed in `s` and as long as it can be.
pub open spec fn token_ok(s: Seq<u8>, t: Token) -> bool {
    &&& t.start < t.end <= s.len()
    &&& match t.kind {
        TokKind::Ident => {
            &&& is_ident_start(s[t.start as int])
            &&& forall|k: int| t.start < k < t.end ==> is_ident_char(#[trigger] s[k])
            &&& (t.end == s.len() || !is_ident_char(s[t.end as int]))
        },
        TokKind::Int => {
            &&& forall|k: int| t.start <= k < t.end ==> is_digit(#[trigger] s[k])
            &&& (t.end == s.len() || !is_digit(s[t.end as int]))
        },
        TokKind::Str => {
            &&& t.end - t.start >= 2
            &&& s[t.start as int] == 34
            &&& s[t.end - 1] == 34
            &&& forall|k: int| t.start < k < t.end - 1 ==> #[trigger] s[k] != 34
        },
        TokKind::Op => {
            ||| (t.end == t.start + 2 && is_two_char_op(s[t.start as int], s[t.start + 1]))
            ||| (t.end == t.start + 1 && is_op_char(s[t.start as int]) && !comment_at(
                s,
                t.start as int,
            ) && !(t.start + 1 < s.len() && is_two_char_op(s[t.start as int], s[t.start + 1])))
        },
    }
}

/// Where the text after the first `n` tokens may resume: 0 before any.
pub open spec fn end_of(toks: Seq<Token>, n: int) -> int {
    if n <= 0 {
        0
    } else {
        toks[n - 1].end as int
    }
}

/// The tokens are well formed, in order, and only skippable text lies
/// before, between and after them, up to byte `upto`.
pub open spec fn lexed(s: Seq<u8>, toks: Seq<Token>, upto: int) -> bool {
    &&& forall|n: int| 0 <= n < toks.len() ==> token_ok(s, #[trigger] toks[n])
    &&& forall|n: int|
        0 <= n < toks.len() ==> end_of(toks, n) <= (#[trigger] toks[n]).start && skippable(
            s,
            end_of(toks, n),
            toks[n].start as int,
        )
    &&& end_of(toks, toks.len() as int) <= upto
    &&& skippable(s, end_of(toks, toks.len() as int), upto)
}

/// The byte at which lexing stopped.
pub open spec fn error_pos(e: LexError) -> int {
    match e {
        LexError::Unrecognized { pos } => pos as int,
        LexError::Unterminated { pos } => pos as int,
    }
}

/// Whether lexing rightly stops at `e`.
pub open spec fn error_ok(s: Seq<u8>, e: LexError) -> bool {
    match e {
        LexError::Unrecognized { pos } => pos < s.len() && !is_space(s[pos as int]) && !is_ident_start(
            s[pos as int],
        ) && !is_digit(s[pos as int]) && s[pos as int] != 34 && !is_op_char(s[pos as int]),
        LexError::Unterminated { pos } => pos < s.len() && s[pos as int] == 34 && forall|k: int|
            pos < k < s.len() ==> #[trigger] s[k] != 34,
    }
}

/// The value of a run of decimal digits.
pub open spec fn digits_value(d: Seq<u8>) -> int
    decreases d.len(),
{
    if d.len() == 0 {
        0
    } else {
        digits_value(d.drop_last()) * 10 + (d.last() - 48)
    }
}

/// The value of an integer-literal token, or `None` where it exceeds `limit`.
pub open spec fn literal_value(s: Seq<u8>, t: Token, limit: int) -> Option<int> {
    let v = digits_value(s.subrange(t.start as int, t.end as int));
    if v <= limit {
        Some(v)
    } else {
        None
    }
}

fn space(c: u8) -> (r: bool)
    ensures
        r == is_space(c),
{
    c == 32 || c == 9 || c == 10 || c == 13
}

fn digit(c: u8) -> (r: bool)
    ensures
        r == is_digit(c),
{
    48 <= c && c <= 57
}

fn ident_start(c: u8) -> (r: bool)
    ensures
        r == is_ident_start(c),
{
    (65 <= c && c <= 90) || (97 <= c && c <= 122) || c == 95
}

fn ident_char(c: u8) -> (r: bool)
    ensures
        r == is_ident_char(c),
{
    ident_start(c) || digit(c)
}

fn op_char(c: u8) -> (r: bool)
    ensures
        r == is_op_char(c),
{
    c == 33 || c == 38 || c == 40 || c == 41 || c == 42 || c == 43 || c == 44 || c == 45 || c == 46
        || c == 47 || c == 58 || c == 59 || c == 60 || c == 61 || c == 62 || c == 91 || c == 93
        || c == 123 || c == 124 || c == 125
}

fn two_char_op(a: u8, b: u8) -> (r: bool)
    ensures
        r == is_two_char_op(a, b),
{
    (b == 61 && (a == 60 || a == 62 || a == 61 || a == 33)) || (a == 45 && b == 62) || (a == 58
        && b == 58)
}

/// Appends a token that starts at or after the end of the last one, past
/// skippable text; the text after it is then resumed at its end.
proof fn lemma_push_token(s: Seq<u8>, toks: Seq<Token>, upto: int, t: Token)
    requires
        lexed(s, toks, upto),
        t.start == upto,
        token_ok(s, t),
    ensures
        lexed(s, toks.push(t), t.end as int),
{
    let nt = toks.push(t);
    assert forall|n: int| 0 <= n < nt.len() implies token_ok(s, #[trigger] nt[n]) by {
        if n < toks.len() {
            assert(nt[n] == toks[n]);
        }
    }
    assert forall|n: int|
        0 <= n < nt.len() implies end_of(nt, n) <= (#[trigger] nt[n]).start && skippable(
            s,
            end_of(nt, n),
            nt[n].start as int,
        ) by {
        if n < toks.len() {
            assert(nt[n] == toks[n]);
            assert(end_of(nt, n) == end_of(toks, n));
        } else {
            assert(end_of(nt, n) == end_of(toks, toks.len() as int));
        }
    }
    assert(end_of(nt, nt.len() as int) == t.end);
}

/// Splits source text into tokens, dropping white space and line comments.
pub fn tokenize(src: &Vec<u8>) -> (r: Result<Vec<Token>, LexError>)
    ensures
        match r {
            Ok(toks) => lexed(src@, toks@, src@.len() as int),
            Err(e) => error_ok(src@, e) && exists|toks: Seq<Token>|
                lexed(src@, toks, error_pos(e)),
        },
{
    let ghost s = src@;
    let len = src.len();
    let mut toks: Vec<Token> = Vec::new();
    let mut i: usize = 0;
    while i < len
        invariant
            s == src@,
            len == s.len(),
            i <= len,
            lexed(s, toks@, i as int),
        decreases len - i,
    {
        let c = src[i];
        let ghost e = end_of(toks@, toks@.len() as int);
        if space(c) {
            i = i + 1;
        } else if c == 47 && i + 1 < len && src[i + 1] == 47 {
            let mut j: usize = i + 2;
            while j < len && src[j] != 10
                invariant
                    s == src@,
                    len == s.len(),
                    i + 2 <= j <= len,
                    comment_at(s, i as int),
                    forall|k: int| i + 2 <= k < j ==> s[k] != 10,
                decreases len - j,
            {
                j = j + 1;
            }
            proof {
                assert forall|k: int| i <= k < j implies is_space(#[trigger] s[k]) || in_comment(
                    s,
                    e,
                    k,
                ) by {
                    assert(comment_at(s, i as int));
                    assert forall|m: int| i <= m <= k implies s[m] != 10 by {}
                }
            }
            i = j;
        } else if ident_start(c) {
            let mut j: usize = i + 1;
            while j < len && ident_char(src[j])
                invariant
                    s == src@,
                    len == s.len(),
                    i + 1 <= j <= len,
                    forall|k: int| i < k < j ==> is_ident_char(#[trigger] s[k]),
                decreases len - j,
            {
                j = j + 1;
            }
            let t = Token { kind: TokKind::Ident, start: i, end: j };
            proof {
                lemma_push_token(s, toks@, i as int, t);
            }
            toks.push(t);
            i = j;
        } else if digit(c) {
            let mut j: usize = i + 1;
            while j < len && digit(src[j])
                invariant
                    s == src@,
                    len == s.len(),
                    i + 1 <= j <= len,
                    forall|k: int| i <= k < j ==> is_digit(#[trigger] s[k]),
                decreases len - j,
            {
                j = j + 1;
            }
            let t = Token { kind: TokKind::Int, start: i, end: j };
            proof {
                lemma_push_token(s, toks@, i as int, t);
            }
            toks.push(t);
            i = j;
        } else if c == 34 {
            let mut j: usize = i + 1;
            while j < len && src[j] != 34
                invariant
                    s == src@,
                    len == s.len(),
                    i + 1 <= j <= len,
                    forall|k: int| i < k < j ==> #[trigger] s[k] != 34,
                decreases len - j,
            {
                j = j + 1;
            }
            if j == len {
                proof {
                    assert(lexed(s, toks@, error_pos(LexError::Unterminated { pos: i })));
                }
                return Err(LexError::Unterminated { pos: i });
            }
            let t = Token { kind: TokKind::Str, start: i, end: j + 1 };
            proof {
                lemma_push_token(s, toks@, i as int, t);
            }
            toks.push(t);
            i = j + 1;
        } else if op_char(c) {
            let end: usize = if i + 1 < len && two_char_op(c, src[i + 1]) {
                i + 2
            } else {
                i + 1
            };
            let t = Token { kind: TokKind::Op, start: i, end };
            proof {
                lemma_push_token(s, toks@, i as int, t);
            }
            toks.push(t);
            i = end;
        } else {
            proof {
                assert(lexed(s, toks@, error_pos(LexError::Unrecognized { pos: i })));
            }
            return Err(LexError::Unrecognized { pos: i });
        }
    }
    Ok(toks)
}

/// A run of digits has a non-negative value.
proof fn lemma_digits_nonneg(d: Seq<u8>)
    requires
        forall|k: int| 0 <= k < d.len() ==> is_digit(#[trigger] d[k]),
    ensures
        digits_value(d) >= 0,
    decreases d.len(),
{
    if d.len() > 0 {
        lemma_digits_nonneg(d.drop_last());
    }
}

/// The value of an integer literal, refused where it exceeds `limit` (the
/// largest value of the literal's integer width).
pub fn literal(src: &Vec<u8>, t: Token, limit: u64) -> (r: Option<u64>)
    requires
        token_ok(src@, t),
        t.kind == TokKind::Int,
    ensures
        match literal_value(src@, t, limit as int) {
            Some(v) => r == Some(v as u64),
            None => r is None,
        },
{
    let ghost s = src@;
    let mut v: u64 = 0;
    let mut i: usize = t.start;
    while i < t.end
        invariant
            s == src@,
            token_ok(s, t),
            t.kind == TokKind::Int,
            t.start <= i <= t.end,
            v <= limit,
            v == digits_value(s.subrange(t.start as int, i as int)),
        decreases t.end - i,
    {
        let d = (src[i] - 48) as u64;
        assert(s.subrange(t.start as int, i + 1).drop_last() =~= s.subrange(t.start as int, i as int));
        if d > limit || v > (limit - d) / 10 {
            proof {
                if d <= limit {
                    let q = (limit - d) / 10;
                    assert(v * 10 + d > limit) by (nonlinear_arith)
                        requires
                            v > q,
                            q == (limit - d) / 10,
                            d <= limit,
                    ;
                }
                lemma_digits_grow(s, t, (i + 1) as int, limit as int);
            }
            return None;
        }
        proof {
            let q = (limit - d) / 10;
            assert(v * 10 + d <= limit) by (nonlinear_arith)
                requires
                    v <= q,
                    q == (limit - d) / 10,
                    d <= limit,
            ;
        }
        v = v * 10 + d;
        i = i + 1;
    }
    Some(v)
}

/// Once a prefix of a literal's digits exceeds a limit, so does the whole.
proof fn lemma_digits_grow(s: Seq<u8>, t: Token, i: int, limit: int)
    requires
        token_ok(s, t),
        t.kind == TokKind::Int,
        t.start < i <= t.end,
        digits_value(s.subrange(t.start as int, i)) > limit,
    ensures
        digits_value(s.subrange(t.start as int, t.end as int)) > limit,
    decreases t.end - i,
{
    if i < t.end {
        let p = s.subrange(t.start as int, i + 1);
        assert(p.drop_last() =~= s.subrange(t.start as int, i));
        lemma_digits_nonneg(s.subrange(t.start as int, i));
        assert(digits_value(p) >= digits_value(s.subrange(t.start as int, i)));
        lemma_digits_grow(s, t, i + 1, limit);
    }
}

} // verus!
