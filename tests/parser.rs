use monkey::ast::AST;
use monkey::grammar::ParseError;
use monkey::lexer::tokenize;
use monkey::parser::Parser;
use monkey::spelling::spell;
use monkey::token::Token;

fn tokens_of(src: &str) -> Vec<Token> {
    tokenize(&src.to_string())
}

#[test]
fn parse_one_plus_two() {
    let tokens: [Token; 4] = [Token::Int(1), Token::Plus, Token::Int(2), Token::EOF];
    let mut p = Parser::new(&tokens);
    assert_eq!(p.additive(), Ok(AST::add(AST::integer(1), AST::integer(2))))
}

#[test]
fn parse_one_plus_two_plus_three() {
    let t = vec![
        Token::Int(1),
        Token::Plus,
        Token::Int(2),
        Token::Plus,
        Token::Int(3),
        Token::EOF,
    ];
    let mut p = Parser::new(&t);
    assert_eq!(
        p.additive(),
        Ok(AST::add(AST::add(AST::integer(1), AST::integer(2)), AST::integer(3)))
    )
}

#[test]
fn parse_one_times_two() {
    let t = vec![Token::Int(1), Token::Star, Token::Int(2), Token::EOF];
    let mut p = Parser::new(&t);
    assert_eq!(p.multiplicative(), Ok(AST::multi(AST::integer(1), AST::integer(2))))
}

#[test]
fn parse_one_plus_two_times_three() {
    let t = vec![
        Token::Int(1),
        Token::Plus,
        Token::Int(2),
        Token::Star,
        Token::Int(3),
        Token::EOF,
    ];
    let mut p = Parser::new(&t);
    assert_eq!(
        p.additive(),
        Ok(AST::add(AST::integer(1), AST::multi(AST::integer(2), AST::integer(3))))
    )
}

#[test]
fn parse_one_plus_two_times_three_plus_four() {
    let t = vec![
        Token::Int(1),
        Token::Plus,
        Token::Int(2),
        Token::Star,
        Token::Int(3),
        Token::Plus,
        Token::Int(4),
    ];
    let mut p = Parser::new(&t);
    assert_eq!(
        p.additive(),
        Ok(AST::add(
            AST::add(AST::integer(1), AST::multi(AST::integer(2), AST::integer(3))),
            AST::integer(4)
        ))
    )
}

#[test]
fn test_peek() {
    let tokens: [Token; 4] = [Token::Int(1), Token::Plus, Token::Int(2), Token::EOF];
    let p = Parser::new(&tokens);
    assert_eq!(p.peek(), Some(Token::Int(1)));
    assert_eq!(p.index(), 0);
}

#[test]
fn test_get() {
    let tokens: [Token; 4] = [Token::Int(1), Token::Plus, Token::Int(2), Token::EOF];
    let mut p = Parser::new(&tokens);
    assert_eq!(p.get(), Some(Token::Int(1)));
    assert_eq!(p.get(), Some(Token::Plus));
    assert_eq!(p.index(), 2);
}

#[test]
fn test_let_stmt() {
    let t = vec![
        Token::Let,
        Token::Ident("x".to_string()),
        Token::Assign,
        Token::Int(10),
        Token::Semicolon,
    ];
    let mut p = Parser::new(&t);
    assert_eq!(p.let_stmt(), Ok(AST::let_stmt("x".to_string(), AST::integer(10))));

    let t = vec![
        Token::Let,
        Token::Ident("x".to_string()),
        Token::Assign,
        Token::Int(10),
        Token::Plus,
        Token::Int(20),
        Token::Semicolon,
    ];
    let mut p = Parser::new(&t);
    assert_eq!(
        p.let_stmt(),
        Ok(AST::let_stmt("x".to_string(), AST::add(AST::integer(10), AST::integer(20))))
    );
}

#[test]
fn parse_return_stmt() {
    let t = vec![
        Token::Return,
        Token::Ident("x".to_string()),
        Token::Plus,
        Token::Int(1),
        Token::Semicolon,
    ];
    let mut p = Parser::new(&t);
    assert_eq!(
        p.return_stmt(),
        Ok(AST::return_stmt(AST::add(AST::ident("x".to_string()), AST::integer(1))))
    )
}

#[test]
fn parse_some_statements() {
    let t = vec![
        Token::Int(1),
        Token::Plus,
        Token::Int(2),
        Token::Semicolon,
        Token::Int(3),
        Token::Star,
        Token::Int(4),
        Token::Semicolon,
        Token::EOF,
    ];
    let mut p = Parser::new(&t);
    assert_eq!(p.parse(), Ok(()));
    assert_eq!(
        p.result,
        vec![
            AST::add(AST::integer(1), AST::integer(2)),
            AST::multi(AST::integer(3), AST::integer(4))
        ]
    );
}

#[test]
fn parse_compound() {
    let t = vec![
        Token::LBrace,
        Token::Int(1),
        Token::Plus,
        Token::Int(2),
        Token::Semicolon,
        Token::Int(3),
        Token::Star,
        Token::Int(4),
        Token::Semicolon,
        Token::RBrace,
        Token::EOF,
    ];
    let mut p = Parser::new(&t);
    assert_eq!(
        p.compound_statement(),
        Ok(AST::compound_statement(vec![
            AST::add(AST::integer(1), AST::integer(2)),
            AST::multi(AST::integer(3), AST::integer(4))
        ]))
    );
}

#[test]
fn parse_if_stmt() {
    let t = vec![
        Token::If,
        Token::Int(1),
        Token::Return,
        Token::Int(10),
        Token::Semicolon,
    ];
    let mut p = Parser::new(&t);
    assert_eq!(
        p.if_stmt(),
        Ok(AST::if_stmt(AST::integer(1), AST::return_stmt(AST::integer(10)), None))
    );

    // if 1 {
    //     1;
    //     2;
    // }
    let t = vec![
        Token::If,
        Token::Int(1),
        Token::LBrace,
        Token::Int(1),
        Token::Semicolon,
        Token::Int(2),
        Token::Semicolon,
        Token::RBrace,
    ];
    let mut p = Parser::new(&t);
    assert_eq!(
        p.if_stmt(),
        Ok(AST::if_stmt(
            AST::integer(1),
            AST::compound_statement(vec![AST::integer(1), AST::integer(2)]),
            None
        ))
    );

    let t = vec![
        Token::If,
        Token::Int(1),
        Token::Return,
        Token::Int(10),
        Token::Semicolon,
        Token::Else,
        Token::Return,
        Token::Int(20),
        Token::Semicolon,
        Token::RBrace,
    ];
    let mut p = Parser::new(&t);
    assert_eq!(
        p.if_stmt(),
        Ok(AST::if_stmt(
            AST::integer(1),
            AST::return_stmt(AST::integer(10)),
            Some(AST::return_stmt(AST::integer(20)))
        ))
    );
}

#[test]
fn parse_fncall() {
    let t = vec![
        Token::Ident("x".to_string()),
        Token::LParen,
        Token::Int(1),
        Token::RParen,
    ];
    let mut p = Parser::new(&t);
    assert_eq!(
        p.primary(),
        Ok(AST::fn_call("x".to_string(), vec![AST::integer(1)]))
    );

    let t = vec![
        Token::Ident("x".to_string()),
        Token::LParen,
        Token::Int(1),
        Token::Plus,
        Token::Int(2),
        Token::Comma,
        Token::Int(3),
        Token::RParen,
    ];
    let mut p = Parser::new(&t);
    assert_eq!(
        p.primary(),
        Ok(AST::fn_call(
            "x".to_string(),
            vec![AST::add(AST::integer(1), AST::integer(2)), AST::integer(3)]
        ))
    );
}

#[test]
fn parse_fndef() {
    let t = vec![
        Token::Function,
        Token::LParen,
        Token::Ident("x".to_string()),
        Token::Comma,
        Token::Ident("y".to_string()),
        Token::RParen,
        Token::LBrace,
        Token::Return,
        Token::Ident("x".to_string()),
        Token::Plus,
        Token::Ident("y".to_string()),
        Token::Semicolon,
        Token::RBrace,
    ];
    let mut p = Parser::new(&t);
    assert_eq!(
        p.fn_def(),
        Ok(AST::fn_def(
            vec!["x".to_string(), "y".to_string()],
            vec![AST::return_stmt(AST::add(
                AST::ident("x".to_string()),
                AST::ident("y".to_string())
            ))]
        ))
    )
}

#[test]
fn parse_text_multiplication_binds_tighter() {
    let t = tokens_of("1 + 2 * 3");
    let mut p = Parser::new(&t);
    assert_eq!(
        p.additive(),
        Ok(AST::add(AST::integer(1), AST::multi(AST::integer(2), AST::integer(3))))
    );
    assert_eq!(p.peek(), Some(Token::EOF));
}

#[test]
fn parse_text_addition_nests_left() {
    let t = tokens_of("1 + 2 + 3;");
    let mut p = Parser::new(&t);
    assert_eq!(p.parse(), Ok(()));
    assert_eq!(
        p.result,
        vec![AST::add(AST::add(AST::integer(1), AST::integer(2)), AST::integer(3))]
    );
}

#[test]
fn parse_empty_lists() {
    let t = tokens_of("let f = fn() { }; f();");
    let mut p = Parser::new(&t);
    assert_eq!(p.parse(), Ok(()));
    assert_eq!(
        p.result,
        vec![
            AST::let_stmt("f".to_string(), AST::fn_def(vec![], vec![])),
            AST::fn_call("f".to_string(), vec![]),
        ]
    );
}

#[test]
fn parse_errors() {
    let t = tokens_of("let = 5;");
    let mut p = Parser::new(&t);
    assert_eq!(p.parse(), Err(ParseError::UnexpectedToken));

    let t = vec![Token::Int(1), Token::Plus];
    let mut p = Parser::new(&t);
    assert_eq!(p.additive(), Err(ParseError::UnexpectedEnd));

    let t = tokens_of("f(1,);");
    let mut p = Parser::new(&t);
    assert_eq!(p.statement(), Err(ParseError::UnexpectedToken));

    let t = tokens_of("1 + 2");
    let mut p = Parser::new(&t);
    assert_eq!(p.expression_statement(), Err(ParseError::UnexpectedToken));

    let t = vec![Token::Int(1), Token::Semicolon];
    let mut p = Parser::new(&t);
    assert_eq!(p.parse(), Err(ParseError::UnexpectedEnd));
}

#[test]
fn spelling_reads_back() {
    let a = AST::add(
        AST::add(AST::ident("x".to_string()), AST::bool(true)),
        AST::multi(AST::multi(AST::integer(2), AST::integer(3)), AST::integer(4)),
    );
    let mut t = spell(&a);
    assert_eq!(
        t,
        vec![
            Token::Ident("x".to_string()),
            Token::Plus,
            Token::True,
            Token::Plus,
            Token::Int(2),
            Token::Star,
            Token::Int(3),
            Token::Star,
            Token::Int(4),
        ]
    );
    t.push(Token::Semicolon);
    t.push(Token::EOF);
    let mut p = Parser::new(&t);
    assert_eq!(p.parse(), Ok(()));
    assert_eq!(p.result, vec![a]);
}
