//! The tokenizer's output on a small program.

use rubyrt::lexer::{Annot, Lexer, Loc, Reserved, Token, TokenKind};

fn assert_tokens(program: &str, ans: Vec<Token>) {
    let mut lexer = Lexer::new(program);
    match lexer.tokenize() {
        Err(err) => panic!("{:?}", err),
        Ok(tokens) => {
            let len = tokens.len();
            for i in 0..len {
                if tokens[i] != ans[i] {
                    panic!("Expected:{:?} Got:{:?}", tokens[i], ans[i]);
                }
            }
            if len != ans.len() {
                panic!("Expected:{:?} Got:{:?}", tokens, ans);
            }
        }
    };
}

#[test]
fn lexer_test() {
    let program = "a = 0;\n if a == 1_000 then 5 else 10";
    let ans = vec![
        Annot { value: TokenKind::Ident("a".to_string()), loc: Loc(0, 0) },
        Annot { value: TokenKind::Punct('='), loc: Loc(2, 2) },
        Annot { value: TokenKind::NumLit(0), loc: Loc(4, 4) },
        Annot { value: TokenKind::Punct(';'), loc: Loc(5, 5) },
        Annot { value: TokenKind::Reserved(Reserved::If), loc: Loc(8, 9) },
        Annot { value: TokenKind::Ident("a".to_string()), loc: Loc(11, 11) },
        Annot { value: TokenKind::Punct('='), loc: Loc(13, 13) },
        Annot { value: TokenKind::Punct('='), loc: Loc(14, 14) },
        Annot { value: TokenKind::NumLit(1000), loc: Loc(16, 20) },
        Annot { value: TokenKind::Reserved(Reserved::Then), loc: Loc(22, 25) },
        Annot { value: TokenKind::NumLit(5), loc: Loc(27, 27) },
        Annot { value: TokenKind::Reserved(Reserved::Else), loc: Loc(29, 32) },
        Annot { value: TokenKind::NumLit(10), loc: Loc(34, 35) },
    ];
    assert_tokens(program, ans);
}

#[test]
fn lexer_overflow() {
    let mut lexer = Lexer::new("99999999999999999999999999");
    assert!(lexer.tokenize().is_err());
}

#[test]
fn lexer_unexpected_char() {
    let mut lexer = Lexer::new("a \u{3042}");
    assert!(lexer.tokenize().is_err());
}
