use monkey::lexer::{tokenize, Lexer};
use monkey::token::{lookup_keyword, Token};

#[test]
fn lexer_some_operand() {
    let expected = vec![
        Token::Plus,
        Token::Semicolon,
        Token::LBrace,
        Token::RBrace,
        Token::LParen,
        Token::RParen,
        Token::EOF,
    ];
    let input = "+;{}()".to_string();

    let mut l = Lexer::new(input);
    for t in expected {
        assert_eq!(l.next_token(), t);
    }
}

fn let_ident_expected() -> Vec<Token> {
    vec![
        Token::Let,
        Token::Ident("five".to_string()),
        Token::Assign,
        Token::Int(5),
        Token::Semicolon,
        Token::Let,
        Token::Ident("ten".to_string()),
        Token::Assign,
        Token::Int(10),
        Token::Semicolon,
        Token::Let,
        Token::Ident("add".to_string()),
        Token::Assign,
        Token::Function,
        Token::LParen,
        Token::Ident('x'.to_string()),
        Token::Comma,
        Token::Ident('y'.to_string()),
        Token::RParen,
        Token::LBrace,
        Token::Ident('x'.to_string()),
        Token::Plus,
        Token::Ident('y'.to_string()),
        Token::Semicolon,
        Token::RBrace,
        Token::Semicolon,
        Token::Let,
        Token::Ident("result".to_string()),
        Token::Assign,
        Token::Ident("add".to_string()),
        Token::LParen,
        Token::Ident("five".to_string()),
        Token::Comma,
        Token::Ident("ten".to_string()),
        Token::RParen,
        Token::Semicolon,
    ]
}

#[test]
fn lexer_let_ident() {
    let input = "\
                 let five = 5;\n\
                 let ten = 10;\n\
                 let add = fn (x ,y) {\n\
                 x + y;\n\
                 };\n\
                 let result = add(five, ten);"
        .to_string();
    let mut l = Lexer::new(input);
    for t in let_ident_expected() {
        let result = l.next_token();
        assert_eq!(result, t);
    }
}

fn keywords_expected() -> Vec<Token> {
    vec![
        Token::If,
        Token::LParen,
        Token::Int(5),
        Token::LT,
        Token::Int(10),
        Token::RParen,
        Token::LBrace,
        Token::Return,
        Token::True,
        Token::Semicolon,
        Token::RBrace,
        Token::Else,
        Token::LBrace,
        Token::Return,
        Token::False,
        Token::Semicolon,
        Token::RBrace,
    ]
}

#[test]
fn lexer_add_some_keywords() {
    let input = "\
                 if (5 < 10) {\
                 return true;\
                 } else {\
                 return false;\
                 }"
    .to_string();
    let mut l = Lexer::new(input);
    for t in keywords_expected() {
        let result = l.next_token();
        assert_eq!(result, t);
    }
}

fn eq_not_eq_expected() -> Vec<Token> {
    vec![
        Token::Int(9),
        Token::Bang,
        Token::True,
        Token::Semicolon,
        Token::Int(10),
        Token::Eq,
        Token::Int(10),
        Token::Semicolon,
        Token::Int(10),
        Token::NotEq,
        Token::Int(9),
        Token::Semicolon,
    ]
}

#[test]
fn lexer_add_eq_not_eq() {
    let input = "\
        9
        !true;
        10==10;\
        10 != 9;"
        .to_string();
    let mut l = Lexer::new(input);
    for t in eq_not_eq_expected() {
        let result = l.next_token();
        assert_eq!(result, t);
    }
}

#[test]
fn main_some_operand() {
    let expected = vec![
        Token::Plus,
        Token::Semicolon,
        Token::LBrace,
        Token::RBrace,
        Token::LParen,
        Token::RParen,
        Token::EOF,
    ];
    let input = "+;{}()".to_string();

    let mut l = Lexer::new(input);
    for t in expected {
        assert_eq!(l.next_token(), t);
    }
}

#[test]
fn main_let_ident() {
    let input = "\
                 let five = 5;\n\
                 let ten = 10;\n\
                 let add = fn (x ,y) {\n\
                 x + y;\n\
                 };\n\
                 let result = add(five, ten);"
        .to_string();
    let mut l = Lexer::new(input);
    for t in let_ident_expected() {
        let result = l.next_token();
        assert_eq!(result, t);
    }
}

#[test]
fn main_add_some_keywords() {
    let input = "\
                 if (5 < 10) {\
                 return true;\
                 } else {\
                 return false;\
                 }"
    .to_string();
    let mut l = Lexer::new(input);
    for t in keywords_expected() {
        let result = l.next_token();
        assert_eq!(result, t);
    }
}

#[test]
fn main_add_eq_not_eq() {
    let input = "\
        9
        !true;
        10==10;\
        10 != 9;"
        .to_string();
    let mut l = Lexer::new(input);
    for t in eq_not_eq_expected() {
        let result = l.next_token();
        assert_eq!(result, t);
    }
}

#[test]
fn lexer_end_and_illegal() {
    let mut l = Lexer::new("  x1 @ 99999999999 ; >".to_string());
    assert_eq!(l.next_token(), Token::Ident("x".to_string()));
    assert_eq!(l.next_token(), Token::Int(1));
    assert_eq!(l.next_token(), Token::Illegal('@'));
    assert_eq!(l.next_token(), Token::Illegal('9'));
    assert_eq!(l.next_token(), Token::Semicolon);
    assert_eq!(l.next_token(), Token::GT);
    assert_eq!(l.next_token(), Token::EOF);
    assert_eq!(l.next_token(), Token::EOF);
    let mut l = Lexer::new("2147483647 2147483648".to_string());
    assert_eq!(l.next_token(), Token::Int(2147483647));
    assert_eq!(l.next_token(), Token::Illegal('2'));
}

#[test]
fn keyword_lookup() {
    assert_eq!(lookup_keyword("let".to_string()), Token::Let);
    assert_eq!(lookup_keyword("fn".to_string()), Token::Function);
    assert_eq!(lookup_keyword("while".to_string()), Token::While);
    assert_eq!(lookup_keyword("false".to_string()), Token::False);
    assert_eq!(lookup_keyword("lets".to_string()), Token::Ident("lets".to_string()));
    assert_eq!(lookup_keyword("Let".to_string()), Token::Ident("Let".to_string()));
}

#[test]
fn tokenize_ends_with_one_eof() {
    assert_eq!(tokenize(&"".to_string()), vec![Token::EOF]);
    assert_eq!(
        tokenize(&"let x = 2 * y;".to_string()),
        vec![
            Token::Let,
            Token::Ident("x".to_string()),
            Token::Assign,
            Token::Int(2),
            Token::Star,
            Token::Ident("y".to_string()),
            Token::Semicolon,
            Token::EOF,
        ]
    );
    assert_eq!(
        tokenize(&"a<=b - c".to_string()),
        vec![
            Token::Ident("a".to_string()),
            Token::LTE,
            Token::Ident("b".to_string()),
            Token::Minus,
            Token::Ident("c".to_string()),
            Token::EOF,
        ]
    );
}
