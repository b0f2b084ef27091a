use minirust::lexer::{literal, tokenize, LexError, TokKind, Token};

fn kinds_and_texts(src: &str) -> Vec<(TokKind, String)> {
    let bytes: Vec<u8> = src.bytes().collect();
    let toks = tokenize(&bytes).expect("lexes");
    toks.iter().map(|t: &Token| (t.kind, src[t.start..t.end].to_string())).collect()
}

#[test]
fn lex_function_header() {
    let got = kinds_and_texts("fn fib(n: i64) -> i64 {");
    let want = vec![
        (TokKind::Ident, "fn"),
        (TokKind::Ident, "fib"),
        (TokKind::Op, "("),
        (TokKind::Ident, "n"),
        (TokKind::Op, ":"),
        (TokKind::Ident, "i64"),
        (TokKind::Op, ")"),
        (TokKind::Op, "->"),
        (TokKind::Ident, "i64"),
        (TokKind::Op, "{"),
    ];
    let want: Vec<(TokKind, String)> = want.into_iter().map(|(k, s)| (k, s.to_string())).collect();
    assert_eq!(got, want);
}

#[test]
fn lex_comparisons_and_numbers() {
    let got = kinds_and_texts("while (x <= 20) { x = x+1; } a != b == c >= 100");
    let texts: Vec<&str> = got.iter().map(|(_, s)| s.as_str()).collect();
    assert_eq!(
        texts,
        vec![
            "while", "(", "x", "<=", "20", ")", "{", "x", "=", "x", "+", "1", ";", "}", "a", "!=",
            "b", "==", "c", ">=", "100"
        ]
    );
    assert_eq!(got[4].0, TokKind::Int);
    assert_eq!(got[20].0, TokKind::Int);
}

#[test]
fn lex_strings_and_comments() {
    let got = kinds_and_texts("println!(\"{}\", \"hola desde struct\"); // a comment\nnums[1] / 2");
    let texts: Vec<&str> = got.iter().map(|(_, s)| s.as_str()).collect();
    assert_eq!(
        texts,
        vec![
            "println", "!", "(", "\"{}\"", ",", "\"hola desde struct\"", ")", ";", "nums", "[", "1",
            "]", "/", "2"
        ]
    );
    assert_eq!(got[3].0, TokKind::Str);
    assert_eq!(got[5].0, TokKind::Str);
}

#[test]
fn lex_empty_and_blank() {
    assert_eq!(tokenize(&vec![]), Ok(vec![]));
    assert_eq!(tokenize(&b"  \n\t // only a comment".to_vec()), Ok(vec![]));
}

#[test]
fn lex_errors() {
    assert_eq!(
        tokenize(&b"let s = \"open".to_vec()),
        Err(LexError::Unterminated { pos: 8 })
    );
    assert_eq!(tokenize(&b"a # b".to_vec()), Err(LexError::Unrecognized { pos: 2 }));
}

#[test]
fn lex_positions() {
    let toks = tokenize(&b"ab 12".to_vec()).unwrap();
    assert_eq!(
        toks,
        vec![
            Token { kind: TokKind::Ident, start: 0, end: 2 },
            Token { kind: TokKind::Int, start: 3, end: 5 }
        ]
    );
}

#[test]
fn literal_values_and_width_limits() {
    let src = b"0 00012 2147483647 2147483648 9223372036854775807 9223372036854775808".to_vec();
    let toks = tokenize(&src).unwrap();
    let i32_max = i32::MAX as u64;
    let i64_max = i64::MAX as u64;
    assert_eq!(literal(&src, toks[0], i32_max), Some(0));
    assert_eq!(literal(&src, toks[1], i32_max), Some(12));
    assert_eq!(literal(&src, toks[2], i32_max), Some(2147483647));
    assert_eq!(literal(&src, toks[3], i32_max), None);
    assert_eq!(literal(&src, toks[3], i64_max), Some(2147483648));
    assert_eq!(literal(&src, toks[4], i64_max), Some(9223372036854775807));
    assert_eq!(literal(&src, toks[5], i64_max), None);
    assert_eq!(literal(&src, toks[5], u64::MAX), Some(9223372036854775808));
}
