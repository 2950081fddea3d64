use vstd::prelude::*;
use crate::ast::Node;
use crate::token::Token;

verus! {

/// Why a token sequence is not a program.
#[derive(Clone, Copy, Debug, PartialEq, Eq)]
pub enum ParseError {
    /// A token stands where the grammar does not allow it.
    UnexpectedToken,
    /// The tokens end where the grammar expects more.
    UnexpectedEnd,
}

/// What a grammar rule makes of the tokens from some position: the tree it
/// builds and the position after the tokens it used, or why it fails.
pub type Parsed = Result<(Node, nat), ParseError>;

/// The token at position `p`, if there is one.
pub open spec fn tok(ts: Seq<Token>, p: nat) -> Option<Token> {
    if p < ts.len() {
        Some(ts[p as int])
    } else {
        None
    }
}

/// The error for a rule that cannot go on at position `p`.
pub open spec fn err_at(ts: Seq<Token>, p: nat) -> ParseError {
    if p < ts.len() {
        ParseError::UnexpectedToken
    } else {
        ParseError::UnexpectedEnd
    }
}

/// Whether a rule that started at `p` and stopped at `q` used at least one
/// token. A rule that succeeds always has (the parser's contracts show it);
/// the rules test it before going on from `q` so that their recursion is
/// visibly finite.
pub open spec fn moved(ts: Seq<Token>, p: nat, q: nat) -> bool {
    p < q <= ts.len()
}

/// primary := INT | `true` | `false` | IDENT | IDENT `(` arguments `)`
pub open spec fn parse_primary(ts: Seq<Token>, p: nat) -> Parsed
    decreases ts.len() - p, 1int,
{
    match tok(ts, p) {
        Some(Token::Int(i)) => Ok((Node::Int(i), p + 1)),
        Some(Token::True) => Ok((Node::Bool(true), p + 1)),
        Some(Token::False) => Ok((Node::Bool(false), p + 1)),
        Some(Token::Ident(s)) => {
            if tok(ts, p + 1) == Some(Token::LParen) {
                parse_call(ts, s@, p + 2)
            } else {
                Ok((Node::Ident(s@), p + 1))
            }
        },
        _ => Err(err_at(ts, p)),
    }
}

/// The arguments of a call to `name` from position `p`, just after its `(`.
pub open spec fn parse_call(ts: Seq<Token>, name: Seq<char>, p: nat) -> Parsed
    decreases ts.len() - p, 6int,
{
    if tok(ts, p) == Some(Token::RParen) {
        Ok((Node::FnCall(name, Seq::empty()), p + 1))
    } else {
        parse_args(ts, name, Seq::empty(), p)
    }
}

/// The arguments of a call to `name` from position `p`, after the arguments
/// `acc` already read: expressions separated by `,` and closed by `)`.
pub open spec fn parse_args(ts: Seq<Token>, name: Seq<char>, acc: Seq<Node>, p: nat) -> Parsed
    decreases ts.len() - p, 5int,
{
    match parse_expression(ts, p) {
        Err(e) => Err(e),
        Ok((e, q)) => {
            if !moved(ts, p, q) {
                Err(ParseError::UnexpectedEnd)
            } else {
                match tok(ts, q) {
                    Some(Token::RParen) => Ok((Node::FnCall(name, acc.push(e)), q + 1)),
                    Some(Token::Comma) => parse_args(ts, name, acc.push(e), q + 1),
                    _ => Err(err_at(ts, q)),
                }
            }
        },
    }
}

/// multiplicative := primary (`*` primary)*, nested to the left.
pub open spec fn parse_multiplicative(ts: Seq<Token>, p: nat) -> Parsed
    decreases ts.len() - p, 2int,
{
    match parse_primary(ts, p) {
        Err(e) => Err(e),
        Ok((l, q)) => {
            if moved(ts, p, q) {
                multiplicative_rest(ts, l, q)
            } else {
                Err(ParseError::UnexpectedEnd)
            }
        },
    }
}

/// The factors that follow `left` from position `p`.
pub open spec fn multiplicative_rest(ts: Seq<Token>, left: Node, p: nat) -> Parsed
    decreases ts.len() - p, 0int,
{
    if tok(ts, p) == Some(Token::Star) {
        match parse_primary(ts, p + 1) {
            Err(e) => Err(e),
            Ok((r, q)) => {
                if moved(ts, p, q) {
                    multiplicative_rest(ts, Node::Multi(Box::new(left), Box::new(r)), q)
                } else {
                    Err(ParseError::UnexpectedEnd)
                }
            },
        }
    } else {
        Ok((left, p))
    }
}

/// additive := multiplicative (`+` multiplicative)*, nested to the left.
pub open spec fn parse_additive(ts: Seq<Token>, p: nat) -> Parsed
    decreases ts.len() - p, 3int,
{
    match parse_multiplicative(ts, p) {
        Err(e) => Err(e),
        Ok((l, q)) => {
            if moved(ts, p, q) {
                additive_rest(ts, l, q)
            } else {
                Err(ParseError::UnexpectedEnd)
            }
        },
    }
}

/// The terms that follow `left` from position `p`.
pub open spec fn additive_rest(ts: Seq<Token>, left: Node, p: nat) -> Parsed
    decreases ts.len() - p, 0int,
{
    if tok(ts, p) == Some(Token::Plus) {
        match parse_multiplicative(ts, p + 1) {
            Err(e) => Err(e),
            Ok((r, q)) => {
                if moved(ts, p, q) {
                    additive_rest(ts, Node::Add(Box::new(left), Box::new(r)), q)
                } else {
                    Err(ParseError::UnexpectedEnd)
                }
            },
        }
    } else {
        Ok((left, p))
    }
}

/// expression := function | additive
pub open spec fn parse_expression(ts: Seq<Token>, p: nat) -> Parsed
    decreases ts.len() - p, 4int,
{
    match tok(ts, p) {
        Some(Token::Function) => parse_fn_def(ts, p),
        Some(_) => parse_additive(ts, p),
        None => Err(ParseError::UnexpectedEnd),
    }
}

/// function := `fn` `(` parameters `)` block
pub open spec fn parse_fn_def(ts: Seq<Token>, p: nat) -> Parsed
    decreases ts.len() - p, 3int,
{
    if tok(ts, p) != Some(Token::Function) {
        Err(err_at(ts, p))
    } else if tok(ts, p + 1) != Some(Token::LParen) {
        Err(err_at(ts, p + 1))
    } else {
        match parse_param_list(ts, p + 2) {
            Err(e) => Err(e),
            Ok((params, q)) => {
                if !moved(ts, p, q) {
                    Err(ParseError::UnexpectedEnd)
                } else {
                    match parse_block_items(ts, q) {
                        Err(e) => Err(e),
                        Ok((stmts, q2)) => Ok((Node::FnDef(params, stmts), q2)),
                    }
                }
            },
        }
    }
}

/// The parameter names of a function from position `p`, just after its `(`,
/// through the closing `)`.
pub open spec fn parse_param_list(ts: Seq<Token>, p: nat) -> Result<(Seq<Seq<char>>, nat), ParseError>
    decreases ts.len() - p, 1int,
{
    if tok(ts, p) == Some(Token::RParen) {
        Ok((Seq::empty(), p + 1))
    } else {
        params_rest(ts, Seq::empty(), p)
    }
}

/// The parameter names from position `p`, after the names `acc` already
/// read: identifiers separated by `,` and closed by `)`.
pub open spec fn params_rest(ts: Seq<Token>, acc: Seq<Seq<char>>, p: nat) -> Result<(Seq<Seq<char>>, nat), ParseError>
    decreases ts.len() - p, 0int,
{
    match tok(ts, p) {
        Some(Token::Ident(s)) => {
            match tok(ts, p + 1) {
                Some(Token::RParen) => Ok((acc.push(s@), p + 2)),
                Some(Token::Comma) => params_rest(ts, acc.push(s@), p + 2),
                _ => Err(err_at(ts, p + 1)),
            }
        },
        _ => Err(err_at(ts, p)),
    }
}

/// The statements of a block `{` statement* `}` from position `p`.
pub open spec fn parse_block_items(ts: Seq<Token>, p: nat) -> Result<(Seq<Node>, nat), ParseError>
    decreases ts.len() - p, 4int,
{
    if tok(ts, p) == Some(Token::LBrace) {
        statements_rest(ts, Seq::empty(), p + 1)
    } else {
        Err(err_at(ts, p))
    }
}

/// The statements of a block from position `p` up to its `}`, after the
/// statements `acc` already read.
pub open spec fn statements_rest(ts: Seq<Token>, acc: Seq<Node>, p: nat) -> Result<(Seq<Node>, nat), ParseError>
    decreases ts.len() - p, 7int,
{
    match tok(ts, p) {
        Some(Token::RBrace) => Ok((acc, p + 1)),
        None => Err(ParseError::UnexpectedEnd),
        Some(_) => {
            match parse_statement(ts, p) {
                Err(e) => Err(e),
                Ok((s, q)) => {
                    if moved(ts, p, q) {
                        statements_rest(ts, acc.push(s), q)
                    } else {
                        Err(ParseError::UnexpectedEnd)
                    }
                },
            }
        },
    }
}

/// block := `{` statement* `}`
pub open spec fn parse_compound(ts: Seq<Token>, p: nat) -> Parsed
    decreases ts.len() - p, 5int,
{
    match parse_block_items(ts, p) {
        Err(e) => Err(e),
        Ok((stmts, q)) => Ok((Node::Compound(stmts), q)),
    }
}

/// expression-statement := expression `;`
pub open spec fn parse_expression_statement(ts: Seq<Token>, p: nat) -> Parsed
    decreases ts.len() - p, 5int,
{
    match parse_expression(ts, p) {
        Err(e) => Err(e),
        Ok((e, q)) => {
            if tok(ts, q) == Some(Token::Semicolon) {
                Ok((e, q + 1))
            } else {
                Err(err_at(ts, q))
            }
        },
    }
}

/// let := `let` IDENT `=` expression `;`
pub open spec fn parse_let(ts: Seq<Token>, p: nat) -> Parsed
    decreases ts.len() - p, 5int,
{
    if tok(ts, p) != Some(Token::Let) {
        Err(err_at(ts, p))
    } else {
        match tok(ts, p + 1) {
            Some(Token::Ident(name)) => {
                if tok(ts, p + 2) != Some(Token::Assign) {
                    Err(err_at(ts, p + 2))
                } else {
                    match parse_expression(ts, p + 3) {
                        Err(e) => Err(e),
                        Ok((e, q)) => {
                            if tok(ts, q) == Some(Token::Semicolon) {
                                Ok((Node::Let(name@, Box::new(e)), q + 1))
                            } else {
                                Err(err_at(ts, q))
                            }
                        },
                    }
                }
            },
            _ => Err(err_at(ts, p + 1)),
        }
    }
}

/// return := `return` expression `;`
pub open spec fn parse_return(ts: Seq<Token>, p: nat) -> Parsed
    decreases ts.len() - p, 5int,
{
    if tok(ts, p) != Some(Token::Return) {
        Err(err_at(ts, p))
    } else {
        match parse_expression_statement(ts, p + 1) {
            Err(e) => Err(e),
            Ok((e, q)) => Ok((Node::Return(Box::new(e)), q)),
        }
    }
}

/// if := `if` expression statement (`else` statement)?
pub open spec fn parse_if(ts: Seq<Token>, p: nat) -> Parsed
    decreases ts.len() - p, 5int,
{
    if tok(ts, p) != Some(Token::If) {
        Err(err_at(ts, p))
    } else {
        match parse_expression(ts, p + 1) {
            Err(e) => Err(e),
            Ok((c, q)) => {
                if !moved(ts, p, q) {
                    Err(ParseError::UnexpectedEnd)
                } else {
                    match parse_statement(ts, q) {
                        Err(e) => Err(e),
                        Ok((s, q2)) => {
                            if !moved(ts, p, q2) {
                                Err(ParseError::UnexpectedEnd)
                            } else if tok(ts, q2) == Some(Token::Else) {
                                match parse_statement(ts, q2 + 1) {
                                    Err(e) => Err(e),
                                    Ok((a, q3)) => Ok(
                                        (Node::If(Box::new(c), Box::new(s), Some(Box::new(a))), q3),
                                    ),
                                }
                            } else {
                                Ok((Node::If(Box::new(c), Box::new(s), None), q2))
                            }
                        },
                    }
                }
            },
        }
    }
}

/// statement := let | return | block | if | expression-statement, chosen by
/// the token at `p`.
pub open spec fn parse_statement(ts: Seq<Token>, p: nat) -> Parsed
    decreases ts.len() - p, 6int,
{
    match tok(ts, p) {
        Some(Token::Let) => parse_let(ts, p),
        Some(Token::Return) => parse_return(ts, p),
        Some(Token::LBrace) => parse_compound(ts, p),
        Some(Token::If) => parse_if(ts, p),
        Some(_) => parse_expression_statement(ts, p),
        None => Err(ParseError::UnexpectedEnd),
    }
}

/// The statements of a program from position `p` up to the end marker,
/// after the statements `acc` already read.
pub open spec fn program_rest(ts: Seq<Token>, acc: Seq<Node>, p: nat) -> Result<Seq<Node>, ParseError>
    decreases ts.len() - p, 8int,
{
    if tok(ts, p) == Some(Token::EOF) {
        Ok(acc)
    } else {
        match parse_statement(ts, p) {
            Err(e) => Err(e),
            Ok((s, q)) => {
                if moved(ts, p, q) {
                    program_rest(ts, acc.push(s), q)
                } else {
                    Err(ParseError::UnexpectedEnd)
                }
            },
        }
    }
}

/// program := statement* EOF
pub open spec fn parse_program(ts: Seq<Token>) -> Result<Seq<Node>, ParseError> {
    program_rest(ts, Seq::empty(), 0)
}

} // verus!
