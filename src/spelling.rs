use vstd::prelude::*;
use crate::ast::{node_of, ASTKind, Node, AST};
use crate::grammar::{
    additive_rest, multiplicative_rest, parse_additive, parse_expression, parse_multiplicative,
    parse_expression_statement, parse_primary, parse_program, parse_statement, program_rest, tok,
    ParseError,
};
use crate::token::Token;

verus! {

/// Whether a tree is arithmetic: literals and names joined by `+` and `*`.
pub open spec fn is_arith(a: AST) -> bool
    decreases a,
{
    match a.kind {
        ASTKind::Int(_) | ASTKind::Bool(_) | ASTKind::Ident(_) => true,
        ASTKind::Add(l, r) => is_arith(*l) && is_arith(*r),
        ASTKind::Multi(l, r) => is_arith(*l) && is_arith(*r),
        _ => false,
    }
}

/// The tokens that spell an arithmetic tree, in reading order and without
/// grouping.
pub open spec fn spelling(a: AST) -> Seq<Token>
    decreases a,
{
    match a.kind {
        ASTKind::Int(i) => seq![Token::Int(i)],
        ASTKind::Bool(b) => seq![if b { Token::True } else { Token::False }],
        ASTKind::Ident(s) => seq![Token::Ident(s)],
        ASTKind::Add(l, r) => spelling(*l) + seq![Token::Plus] + spelling(*r),
        ASTKind::Multi(l, r) => spelling(*l) + seq![Token::Star] + spelling(*r),
        _ => Seq::empty(),
    }
}

/// A literal or a name.
pub open spec fn is_factor(a: AST) -> bool {
    a.kind is Int || a.kind is Bool || a.kind is Ident
}

/// Factors joined by `*`, nested to the left: the shape a product is read in.
pub open spec fn is_term(a: AST) -> bool
    decreases a,
{
    match a.kind {
        ASTKind::Multi(l, r) => is_term(*l) && is_factor(*r),
        _ => is_factor(a),
    }
}

/// Terms joined by `+`, nested to the left: the shape a sum is read in.
pub open spec fn is_sum(a: AST) -> bool
    decreases a,
{
    match a.kind {
        ASTKind::Add(l, r) => is_sum(*l) && is_term(*r),
        _ => is_term(a),
    }
}

/// The tokens that spell an arithmetic tree.
pub fn spell(a: &AST) -> (ts: Vec<Token>)
    requires
        is_arith(*a),
    ensures
        ts@ == spelling(*a),
    decreases a,
{
    match &a.kind {
        ASTKind::Int(i) => vec![Token::Int(*i)],
        ASTKind::Bool(b) => vec![if *b { Token::True } else { Token::False }],
        ASTKind::Ident(s) => vec![Token::Ident(s.clone())],
        ASTKind::Add(l, r) => {
            let mut v = spell(l);
            v.push(Token::Plus);
            let mut w = spell(r);
            v.append(&mut w);
            v
        },
        ASTKind::Multi(l, r) => {
            let mut v = spell(l);
            v.push(Token::Star);
            let mut w = spell(r);
            v.append(&mut w);
            v
        },
        _ => Vec::new(),
    }
}

/// `ts` holds the spelling of `a` from position `k`.
pub open spec fn spelled_at(ts: Seq<Token>, k: nat, a: AST) -> bool {
    &&& k + spelling(a).len() <= ts.len()
    &&& ts.subrange(k as int, (k + spelling(a).len()) as int) == spelling(a)
}

/// A token after which a name is not a call.
pub open spec fn not_call(ts: Seq<Token>, e: nat) -> bool {
    tok(ts, e) != Some(Token::LParen)
}

proof fn lemma_spelling_nonempty(a: AST)
    requires
        is_sum(a),
    ensures
        spelling(a).len() > 0,
    decreases a,
{
    match a.kind {
        ASTKind::Add(l, r) => lemma_spelling_nonempty(*l),
        ASTKind::Multi(l, r) => {
            assert(is_term(a));
            lemma_term_is_sum(*l);
            lemma_spelling_nonempty(*l);
        },
        _ => {},
    }
}

proof fn lemma_term_is_sum(a: AST)
    requires
        is_term(a),
    ensures
        is_sum(a),
{
    match a.kind {
        ASTKind::Add(_, _) => {},
        _ => {},
    }
}

/// The parts of a spelled operator node stand where they should.
proof fn lemma_split(ts: Seq<Token>, k: nat, l: AST, op: Token, r: AST, whole: Seq<Token>)
    requires
        whole == spelling(l) + seq![op] + spelling(r),
        k + whole.len() <= ts.len(),
        ts.subrange(k as int, (k + whole.len()) as int) == whole,
    ensures
        spelled_at(ts, k, l),
        ts[(k + spelling(l).len()) as int] == op,
        spelled_at(ts, k + spelling(l).len() + 1, r),
{
    let n = spelling(l).len() as int;
    let ki = k as int;
    assert(ts.subrange(ki, ki + n) =~= whole.subrange(0, n));
    assert(whole.subrange(0, n) =~= spelling(l));
    assert(ts[ki + n] == ts.subrange(ki, ki + whole.len())[n]);
    assert(ts.subrange(ki + n + 1, ki + n + 1 + spelling(r).len()) =~= whole.subrange(
        n + 1,
        whole.len() as int,
    ));
    assert(whole.subrange(n + 1, whole.len() as int) =~= spelling(r));
}

/// A spelled factor is read back as itself.
proof fn lemma_factor(ts: Seq<Token>, k: nat, a: AST)
    requires
        is_factor(a),
        spelled_at(ts, k, a),
        not_call(ts, k + 1),
    ensures
        parse_primary(ts, k) == Ok::<_, ParseError>((node_of(a), k + 1)),
{
    assert(ts[k as int] == ts.subrange(k as int, k + 1 as int)[0]);
}

/// Reading a spelled term goes on, after it, as if it were the left operand.
proof fn lemma_term(ts: Seq<Token>, k: nat, a: AST)
    requires
        is_term(a),
        spelled_at(ts, k, a),
        not_call(ts, k + spelling(a).len()),
    ensures
        parse_multiplicative(ts, k) == multiplicative_rest(ts, node_of(a), k + spelling(a).len()),
    decreases a,
{
    match a.kind {
        ASTKind::Multi(l, r) => {
            lemma_split(ts, k, *l, Token::Star, *r, spelling(a));
            let e = k + spelling(*l).len();
            lemma_term(ts, k, *l);
            lemma_factor(ts, e + 1, *r);
        },
        _ => {
            lemma_factor(ts, k, a);
        },
    }
}

/// Reading a spelled sum goes on, after it, as if it were the left operand.
proof fn lemma_sum(ts: Seq<Token>, k: nat, a: AST)
    requires
        is_sum(a),
        spelled_at(ts, k, a),
        not_call(ts, k + spelling(a).len()),
        tok(ts, k + spelling(a).len()) != Some(Token::Star),
    ensures
        parse_additive(ts, k) == additive_rest(ts, node_of(a), k + spelling(a).len()),
    decreases a,
{
    lemma_spelling_nonempty(a);
    match a.kind {
        ASTKind::Add(l, r) => {
            lemma_split(ts, k, *l, Token::Plus, *r, spelling(a));
            let e = k + spelling(*l).len();
            lemma_sum(ts, k, *l);
            lemma_term(ts, e + 1, *r);
            lemma_term_is_sum(*r);
            lemma_spelling_nonempty(*r);
        },
        _ => {
            lemma_term(ts, k, a);
        },
    }
}

/// An arithmetic tree in the shape the grammar reads (products inside sums,
/// both nested to the left) is read back from its spelling as the same tree,
/// using exactly its tokens, when the next token is none of `+`, `*` and `(`.
pub proof fn law_spelling_read_back(ts: Seq<Token>, k: nat, a: AST)
    requires
        is_sum(a),
        spelled_at(ts, k, a),
        not_call(ts, k + spelling(a).len()),
        tok(ts, k + spelling(a).len()) != Some(Token::Star),
        tok(ts, k + spelling(a).len()) != Some(Token::Plus),
    ensures
        parse_expression(ts, k) == Ok::<_, ParseError>(
            (node_of(a), k + spelling(a).len()),
        ),
{
    lemma_sum(ts, k, a);
    lemma_spelling_nonempty(a);
    assert(ts[k as int] == ts.subrange(k as int, (k + spelling(a).len()) as int)[0]);
    assert(ts[k as int] == spelling(a)[0]);
}

/// The program made of an arithmetic tree's spelling, a `;` and the end
/// marker reads back as exactly that one tree, when the tree has the shape
/// the grammar reads.
pub proof fn law_spelled_program(a: AST)
    requires
        is_sum(a),
    ensures
        parse_program(spelling(a) + seq![Token::Semicolon, Token::EOF]) == Ok::<_, ParseError>(
            seq![node_of(a)],
        ),
{
    let ts = spelling(a) + seq![Token::Semicolon, Token::EOF];
    let n = spelling(a).len();
    lemma_spelling_nonempty(a);
    lemma_first_token(a);
    assert(ts.subrange(0, n as int) =~= spelling(a));
    law_spelling_read_back(ts, 0, a);
    assert(ts[0] == spelling(a)[0]);
    assert(ts[n as int] == Token::Semicolon);
    assert(ts[n + 1 as int] == Token::EOF);
    assert(parse_statement(ts, 0) == parse_expression_statement(ts, 0));
    assert(parse_expression_statement(ts, 0) == Ok::<_, ParseError>((node_of(a), n + 1)));
    let one = Seq::<Node>::empty().push(node_of(a));
    assert(one =~= seq![node_of(a)]);
    assert(program_rest(ts, one, n + 1) == Ok::<_, ParseError>(one));
    assert(program_rest(ts, Seq::empty(), 0) == program_rest(ts, one, n + 1));
}

/// The spelling of a tree in the grammar's shape starts with a literal or a
/// name.
proof fn lemma_first_token(a: AST)
    requires
        is_sum(a),
    ensures
        spelling(a).len() > 0,
        spelling(a)[0] is Int || spelling(a)[0] is True || spelling(a)[0] is False
            || spelling(a)[0] is Ident,
    decreases a,
{
    lemma_spelling_nonempty(a);
    match a.kind {
        ASTKind::Add(l, _) => {
            lemma_first_token(*l);
        },
        ASTKind::Multi(l, _) => {
            lemma_term_is_sum(*l);
            lemma_first_token(*l);
        },
        _ => {},
    }
}
} // verus!
