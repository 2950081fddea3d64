use vstd::prelude::*;
use crate::ast::{lemma_nodes_of_push, names_of, nodes_of, Node, AST};
use crate::grammar::{
    additive_rest, multiplicative_rest, params_rest, parse_additive, parse_args, parse_block_items,
    parse_call, parse_compound, parse_expression, parse_expression_statement, parse_fn_def,
    parse_if, parse_let, parse_multiplicative, parse_param_list, parse_primary, parse_return,
    parse_statement, program_rest, statements_rest, tok, ParseError, Parsed,
};
use crate::token::Token;

verus! {

/// A recursive-descent parser over a token sequence, with a cursor into it.
pub struct Parser<'a> {
    tokens: &'a [Token],
    index: usize,
    /// The statements that `parse` has read so far.
    pub result: Vec<AST>,
}

/// `r` is what a rule returns when its grammar rule gives `s`, and `at` is
/// where the cursor stands after it.
pub open spec fn parsed(r: Result<AST, ParseError>, at: nat, s: Parsed) -> bool {
    match s {
        Ok((n, q)) => r is Ok && r->Ok_0@ == n && at == q,
        Err(e) => r == Err::<AST, ParseError>(e),
    }
}

/// The same for a rule that reads a list of statements.
pub open spec fn parsed_list(
    r: Result<Vec<AST>, ParseError>,
    at: nat,
    s: Result<(Seq<Node>, nat), ParseError>,
) -> bool {
    match s {
        Ok((ns, q)) => r is Ok && nodes_of(r->Ok_0@) == ns && at == q,
        Err(e) => r == Err::<Vec<AST>, ParseError>(e),
    }
}

/// The same for a rule that reads a list of names.
pub open spec fn parsed_names(
    r: Result<Vec<String>, ParseError>,
    at: nat,
    s: Result<(Seq<Seq<char>>, nat), ParseError>,
) -> bool {
    match s {
        Ok((ns, q)) => r is Ok && names_of(r->Ok_0@) == ns && at == q,
        Err(e) => r == Err::<Vec<String>, ParseError>(e),
    }
}

impl<'a> Parser<'a> {
    /// The tokens being parsed.
    pub closed spec fn toks(&self) -> Seq<Token> {
        self.tokens@
    }

    /// The position of the next token to read.
    pub closed spec fn pos(&self) -> nat {
        self.index as nat
    }

    /// The statements read so far.
    pub closed spec fn statements(&self) -> Seq<AST> {
        self.result@
    }

    /// The cursor stands within the tokens or just after them.
    pub closed spec fn wf(&self) -> bool {
        self.index <= self.tokens@.len()
    }

    /// `after` is this parser after a rule: same tokens, same statements read,
    /// and, if the rule succeeded, a cursor that has moved on.
    pub closed spec fn moved_to(&self, after: &Self, ok: bool) -> bool {
        &&& after.wf()
        &&& after.toks() == self.toks()
        &&& after.result@ == self.result@
        &&& ok ==> self.pos() < after.pos()
    }

    pub fn new(tokens: &'a [Token]) -> (r: Self)
        ensures
            r.wf(),
            r.toks() == tokens@,
            r.pos() == 0,
            r.statements().len() == 0,
    {
        Parser { tokens, index: 0, result: Vec::new() }
    }

    /// The position of the next token to read.
    pub fn index(&self) -> (r: usize)
        ensures
            r == self.pos(),
    {
        self.index
    }

    /// The next token, without moving on.
    pub fn peek(&self) -> (r: Option<Token>)
        ensures
            r == tok(self.toks(), self.pos()),
    {
        if self.index < self.tokens.len() {
            Some(self.tokens[self.index].duplicate())
        } else {
            None
        }
    }

    /// The next token, moving past it if there is one.
    pub fn get(&mut self) -> (r: Option<Token>)
        ensures
            r == tok(old(self).toks(), old(self).pos()),
            final(self).toks() == old(self).toks(),
            final(self).statements() == old(self).statements(),
            final(self).pos() == if r is Some {
                old(self).pos() + 1
            } else {
                old(self).pos()
            },
            old(self).wf() ==> final(self).wf(),
    {
        if self.index < self.tokens.len() {
            let t = self.tokens[self.index].duplicate();
            self.index = self.index + 1;
            Some(t)
        } else {
            None
        }
    }

    /// Reads a literal, a name or a call (`grammar::parse_primary`).
    pub fn primary(&mut self) -> (r: Result<AST, ParseError>)
        requires
            old(self).wf(),
        ensures
            old(self).moved_to(final(self), r is Ok),
            parsed(r, final(self).pos(), parse_primary(old(self).toks(), old(self).pos())),
        decreases old(self).toks().len() - old(self).pos(), 1int,
    {
        match self.get() {
            Some(Token::Int(i)) => Ok(AST::integer(i)),
            Some(Token::True) => Ok(AST::bool(true)),
            Some(Token::False) => Ok(AST::bool(false)),
            Some(Token::Ident(s)) => {
                match self.peek() {
                    Some(Token::LParen) => {
                        self.get();
                        self.call(s)
                    },
                    _ => Ok(AST::ident(s)),
                }
            },
            Some(_) => Err(ParseError::UnexpectedToken),
            None => Err(ParseError::UnexpectedEnd),
        }
    }

    /// The arguments of a call to `name`, from just after its `(`.
    fn call(&mut self, name: String) -> (r: Result<AST, ParseError>)
        requires
            old(self).wf(),
        ensures
            old(self).moved_to(final(self), r is Ok),
            parsed(r, final(self).pos(), parse_call(old(self).toks(), name@, old(self).pos())),
        decreases old(self).toks().len() - old(self).pos(), 5int,
    {
        if let Some(Token::RParen) = self.peek() {
            self.get();
            return Ok(AST::fn_call(name, Vec::new()));
        }
        let mut args: Vec<AST> = Vec::new();
        loop
            invariant
                old(self).moved_to(self, false),
                old(self).pos() <= self.pos(),
                parse_call(old(self).toks(), name@, old(self).pos()) == parse_args(
                    self.toks(),
                    name@,
                    nodes_of(args@),
                    self.pos(),
                ),
            decreases self.toks().len() - self.pos(),
        {
            let e = match self.expression() {
                Ok(e) => e,
                Err(err) => return Err(err),
            };
            proof {
                lemma_nodes_of_push(args@, e);
            }
            match self.get() {
                Some(Token::RParen) => {
                    args.push(e);
                    return Ok(AST::fn_call(name, args));
                },
                Some(Token::Comma) => {
                    args.push(e);
                },
                Some(_) => return Err(ParseError::UnexpectedToken),
                None => return Err(ParseError::UnexpectedEnd),
            }
        }
    }

    /// Reads a product (`grammar::parse_multiplicative`).
    pub fn multiplicative(&mut self) -> (r: Result<AST, ParseError>)
        requires
            old(self).wf(),
        ensures
            old(self).moved_to(final(self), r is Ok),
            parsed(r, final(self).pos(), parse_multiplicative(old(self).toks(), old(self).pos())),
        decreases old(self).toks().len() - old(self).pos(), 2int,
    {
        let mut left = match self.primary() {
            Ok(a) => a,
            Err(e) => return Err(e),
        };
        loop
            invariant
                old(self).moved_to(self, true),
                parse_multiplicative(old(self).toks(), old(self).pos()) == multiplicative_rest(
                    self.toks(),
                    left@,
                    self.pos(),
                ),
            decreases self.toks().len() - self.pos(),
        {
            match self.peek() {
                Some(Token::Star) => {},
                _ => return Ok(left),
            }
            self.get();
            let right = match self.primary() {
                Ok(a) => a,
                Err(e) => return Err(e),
            };
            left = AST::multi(left, right);
        }
    }

    /// Reads a sum (`grammar::parse_additive`).
    pub fn additive(&mut self) -> (r: Result<AST, ParseError>)
        requires
            old(self).wf(),
        ensures
            old(self).moved_to(final(self), r is Ok),
            parsed(r, final(self).pos(), parse_additive(old(self).toks(), old(self).pos())),
        decreases old(self).toks().len() - old(self).pos(), 3int,
    {
        let mut left = match self.multiplicative() {
            Ok(a) => a,
            Err(e) => return Err(e),
        };
        loop
            invariant
                old(self).moved_to(self, true),
                parse_additive(old(self).toks(), old(self).pos()) == additive_rest(
                    self.toks(),
                    left@,
                    self.pos(),
                ),
            decreases self.toks().len() - self.pos(),
        {
            match self.peek() {
                Some(Token::Plus) => {},
                _ => return Ok(left),
            }
            self.get();
            let right = match self.multiplicative() {
                Ok(a) => a,
                Err(e) => return Err(e),
            };
            left = AST::add(left, right);
        }
    }

    /// Reads a function literal or a sum (`grammar::parse_expression`).
    pub fn expression(&mut self) -> (r: Result<AST, ParseError>)
        requires
            old(self).wf(),
        ensures
            old(self).moved_to(final(self), r is Ok),
            parsed(r, final(self).pos(), parse_expression(old(self).toks(), old(self).pos())),
        decreases old(self).toks().len() - old(self).pos(), 4int,
    {
        match self.peek() {
            Some(Token::Function) => self.fn_def(),
            Some(_) => self.additive(),
            None => Err(ParseError::UnexpectedEnd),
        }
    }

    /// Reads a function literal (`grammar::parse_fn_def`).
    pub fn fn_def(&mut self) -> (r: Result<AST, ParseError>)
        requires
            old(self).wf(),
        ensures
            old(self).moved_to(final(self), r is Ok),
            parsed(r, final(self).pos(), parse_fn_def(old(self).toks(), old(self).pos())),
        decreases old(self).toks().len() - old(self).pos(), 3int,
    {
        match self.get() {
            Some(Token::Function) => {},
            Some(_) => return Err(ParseError::UnexpectedToken),
            None => return Err(ParseError::UnexpectedEnd),
        }
        match self.get() {
            Some(Token::LParen) => {},
            Some(_) => return Err(ParseError::UnexpectedToken),
            None => return Err(ParseError::UnexpectedEnd),
        }
        let params = match self.param_list() {
            Ok(ps) => ps,
            Err(e) => return Err(e),
        };
        let stmts = match self.block_items() {
            Ok(b) => b,
            Err(e) => return Err(e),
        };
        Ok(AST::fn_def(params, stmts))
    }

    /// The parameter names of a function, from just after its `(`.
    fn param_list(&mut self) -> (r: Result<Vec<String>, ParseError>)
        requires
            old(self).wf(),
        ensures
            old(self).moved_to(final(self), r is Ok),
            parsed_names(r, final(self).pos(), parse_param_list(old(self).toks(), old(self).pos())),
    {
        let mut params: Vec<String> = Vec::new();
        if let Some(Token::RParen) = self.peek() {
            self.get();
            assert(names_of(params@) =~= Seq::empty());
            return Ok(params);
        }
        assert(names_of(params@) =~= Seq::empty());
        loop
            invariant
                old(self).moved_to(self, false),
                old(self).pos() <= self.pos(),
                parse_param_list(old(self).toks(), old(self).pos()) == params_rest(
                    self.toks(),
                    names_of(params@),
                    self.pos(),
                ),
            decreases self.toks().len() - self.pos(),
        {
            match self.get() {
                Some(Token::Ident(s)) => {
                    assert(names_of(params@.push(s)) =~= names_of(params@).push(s@));
                    params.push(s);
                },
                Some(_) => return Err(ParseError::UnexpectedToken),
                None => return Err(ParseError::UnexpectedEnd),
            }
            match self.get() {
                Some(Token::RParen) => return Ok(params),
                Some(Token::Comma) => {},
                Some(_) => return Err(ParseError::UnexpectedToken),
                None => return Err(ParseError::UnexpectedEnd),
            }
        }
    }

    /// The statements of a block, from its `{` through its `}`.
    fn block_items(&mut self) -> (r: Result<Vec<AST>, ParseError>)
        requires
            old(self).wf(),
        ensures
            old(self).moved_to(final(self), r is Ok),
            parsed_list(r, final(self).pos(), parse_block_items(old(self).toks(), old(self).pos())),
        decreases old(self).toks().len() - old(self).pos(), 4int,
    {
        match self.get() {
            Some(Token::LBrace) => {},
            Some(_) => return Err(ParseError::UnexpectedToken),
            None => return Err(ParseError::UnexpectedEnd),
        }
        let mut stmts: Vec<AST> = Vec::new();
        assert(nodes_of(stmts@) =~= Seq::empty());
        loop
            invariant
                old(self).moved_to(self, true),
                parse_block_items(old(self).toks(), old(self).pos()) == statements_rest(
                    self.toks(),
                    nodes_of(stmts@),
                    self.pos(),
                ),
            decreases self.toks().len() - self.pos(),
        {
            match self.peek() {
                Some(Token::RBrace) => {
                    self.get();
                    return Ok(stmts);
                },
                None => return Err(ParseError::UnexpectedEnd),
                Some(_) => {},
            }
            let s = match self.statement() {
                Ok(s) => s,
                Err(e) => return Err(e),
            };
            proof {
                lemma_nodes_of_push(stmts@, s);
            }
            stmts.push(s);
        }
    }

    /// Reads a block (`grammar::parse_compound`).
    pub fn compound_statement(&mut self) -> (r: Result<AST, ParseError>)
        requires
            old(self).wf(),
        ensures
            old(self).moved_to(final(self), r is Ok),
            parsed(r, final(self).pos(), parse_compound(old(self).toks(), old(self).pos())),
        decreases old(self).toks().len() - old(self).pos(), 5int,
    {
        match self.block_items() {
            Ok(stmts) => Ok(AST::compound_statement(stmts)),
            Err(e) => Err(e),
        }
    }

    /// Reads an expression and its `;` (`grammar::parse_expression_statement`).
    pub fn expression_statement(&mut self) -> (r: Result<AST, ParseError>)
        requires
            old(self).wf(),
        ensures
            old(self).moved_to(final(self), r is Ok),
            parsed(
                r,
                final(self).pos(),
                parse_expression_statement(old(self).toks(), old(self).pos()),
            ),
        decreases old(self).toks().len() - old(self).pos(), 5int,
    {
        let e = match self.expression() {
            Ok(e) => e,
            Err(err) => return Err(err),
        };
        match self.get() {
            Some(Token::Semicolon) => Ok(e),
            Some(_) => Err(ParseError::UnexpectedToken),
            None => Err(ParseError::UnexpectedEnd),
        }
    }

    /// Reads a `let` statement (`grammar::parse_let`).
    pub fn let_stmt(&mut self) -> (r: Result<AST, ParseError>)
        requires
            old(self).wf(),
        ensures
            old(self).moved_to(final(self), r is Ok),
            parsed(r, final(self).pos(), parse_let(old(self).toks(), old(self).pos())),
        decreases old(self).toks().len() - old(self).pos(), 5int,
    {
        match self.get() {
            Some(Token::Let) => {},
            Some(_) => return Err(ParseError::UnexpectedToken),
            None => return Err(ParseError::UnexpectedEnd),
        }
        let name = match self.get() {
            Some(Token::Ident(s)) => s,
            Some(_) => return Err(ParseError::UnexpectedToken),
            None => return Err(ParseError::UnexpectedEnd),
        };
        match self.get() {
            Some(Token::Assign) => {},
            Some(_) => return Err(ParseError::UnexpectedToken),
            None => return Err(ParseError::UnexpectedEnd),
        }
        let e = match self.expression() {
            Ok(e) => e,
            Err(err) => return Err(err),
        };
        match self.get() {
            Some(Token::Semicolon) => Ok(AST::let_stmt(name, e)),
            Some(_) => Err(ParseError::UnexpectedToken),
            None => Err(ParseError::UnexpectedEnd),
        }
    }

    /// Reads a `return` statement (`grammar::parse_return`).
    pub fn return_stmt(&mut self) -> (r: Result<AST, ParseError>)
        requires
            old(self).wf(),
        ensures
            old(self).moved_to(final(self), r is Ok),
            parsed(r, final(self).pos(), parse_return(old(self).toks(), old(self).pos())),
        decreases old(self).toks().len() - old(self).pos(), 5int,
    {
        match self.get() {
            Some(Token::Return) => {},
            Some(_) => return Err(ParseError::UnexpectedToken),
            None => return Err(ParseError::UnexpectedEnd),
        }
        match self.expression_statement() {
            Ok(e) => Ok(AST::return_stmt(e)),
            Err(err) => Err(err),
        }
    }

    /// Reads an `if` statement (`grammar::parse_if`).
    pub fn if_stmt(&mut self) -> (r: Result<AST, ParseError>)
        requires
            old(self).wf(),
        ensures
            old(self).moved_to(final(self), r is Ok),
            parsed(r, final(self).pos(), parse_if(old(self).toks(), old(self).pos())),
        decreases old(self).toks().len() - old(self).pos(), 5int,
    {
        match self.get() {
            Some(Token::If) => {},
            Some(_) => return Err(ParseError::UnexpectedToken),
            None => return Err(ParseError::UnexpectedEnd),
        }
        let cond = match self.expression() {
            Ok(e) => e,
            Err(err) => return Err(err),
        };
        let stmt = match self.statement() {
            Ok(s) => s,
            Err(err) => return Err(err),
        };
        match self.peek() {
            Some(Token::Else) => {
                self.get();
                match self.statement() {
                    Ok(e) => Ok(AST::if_stmt(cond, stmt, Some(e))),
                    Err(err) => Err(err),
                }
            },
            _ => Ok(AST::if_stmt(cond, stmt, None)),
        }
    }

    /// Reads one statement of any kind (`grammar::parse_statement`).
    pub fn statement(&mut self) -> (r: Result<AST, ParseError>)
        requires
            old(self).wf(),
        ensures
            old(self).moved_to(final(self), r is Ok),
            parsed(r, final(self).pos(), parse_statement(old(self).toks(), old(self).pos())),
        decreases old(self).toks().len() - old(self).pos(), 6int,
    {
        match self.peek() {
            Some(Token::Let) => self.let_stmt(),
            Some(Token::Return) => self.return_stmt(),
            Some(Token::LBrace) => self.compound_statement(),
            Some(Token::If) => self.if_stmt(),
            Some(_) => self.expression_statement(),
            None => Err(ParseError::UnexpectedEnd),
        }
    }

    /// Reads statements up to the end marker, adding each to `result`.
    pub fn parse(&mut self) -> (r: Result<(), ParseError>)
        requires
            old(self).wf(),
        ensures
            final(self).wf(),
            final(self).toks() == old(self).toks(),
            match program_rest(old(self).toks(), nodes_of(old(self).statements()), old(self).pos()) {
                Ok(ns) => r is Ok && nodes_of(final(self).statements()) == ns,
                Err(e) => r == Err::<(), ParseError>(e),
            },
    {
        loop
            invariant
                self.wf(),
                self.toks() == old(self).toks(),
                program_rest(old(self).toks(), nodes_of(old(self).result@), old(self).pos())
                    == program_rest(self.toks(), nodes_of(self.result@), self.pos()),
            decreases self.toks().len() - self.pos(),
        {
            if let Some(Token::EOF) = self.peek() {
                return Ok(());
            }
            let s = match self.statement() {
                Ok(s) => s,
                Err(e) => return Err(e),
            };
            proof {
                lemma_nodes_of_push(self.result@, s);
            }
            self.result.push(s);
        }
    }

} // impl

} // verus!
