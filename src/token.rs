use vstd::prelude::*;

verus! {

/// A lexical token.
#[derive(Clone, Debug, PartialEq)]
pub enum Token {
    Illegal(char),
    EOF,
    Assign,
    Plus,
    Minus,
    Star,
    GT,
    LT,
    LTE,
    Bang,
    Eq,
    NotEq,
    LParen,
    RParen,
    LBrace,
    RBrace,
    Semicolon,
    Comma,
    Let,
    Function,
    Ident(String),
    Int(i32),
    If,
    Else,
    While,
    Return,
    True,
    False,
}

/// The keyword token spelled by `s`, if `s` is a keyword.
pub open spec fn keyword_of(s: Seq<char>) -> Option<Token> {
    if s == seq!['l', 'e', 't'] {
        Some(Token::Let)
    } else if s == seq!['f', 'n'] {
        Some(Token::Function)
    } else if s == seq!['i', 'f'] {
        Some(Token::If)
    } else if s == seq!['e', 'l', 's', 'e'] {
        Some(Token::Else)
    } else if s == seq!['w', 'h', 'i', 'l', 'e'] {
        Some(Token::While)
    } else if s == seq!['r', 'e', 't', 'u', 'r', 'n'] {
        Some(Token::Return)
    } else if s == seq!['t', 'r', 'u', 'e'] {
        Some(Token::True)
    } else if s == seq!['f', 'a', 'l', 's', 'e'] {
        Some(Token::False)
    } else {
        None
    }
}

/// The token for a word: its keyword if it is one, else an identifier.
pub open spec fn word_token(s: String) -> Token {
    match keyword_of(s@) {
        Some(k) => k,
        None => Token::Ident(s),
    }
}

impl Token {
    /// A copy of the token.
    pub fn duplicate(&self) -> (r: Token)
        ensures
            r == *self,
    {
        match self {
            Token::Illegal(c) => Token::Illegal(*c),
            Token::EOF => Token::EOF,
            Token::Assign => Token::Assign,
            Token::Plus => Token::Plus,
            Token::Minus => Token::Minus,
            Token::Star => Token::Star,
            Token::GT => Token::GT,
            Token::LT => Token::LT,
            Token::LTE => Token::LTE,
            Token::Bang => Token::Bang,
            Token::Eq => Token::Eq,
            Token::NotEq => Token::NotEq,
            Token::LParen => Token::LParen,
            Token::RParen => Token::RParen,
            Token::LBrace => Token::LBrace,
            Token::RBrace => Token::RBrace,
            Token::Semicolon => Token::Semicolon,
            Token::Comma => Token::Comma,
            Token::Let => Token::Let,
            Token::Function => Token::Function,
            Token::Ident(s) => Token::Ident(s.clone()),
            Token::Int(i) => Token::Int(*i),
            Token::If => Token::If,
            Token::Else => Token::Else,
            Token::While => Token::While,
            Token::Return => Token::Return,
            Token::True => Token::True,
            Token::False => Token::False,
        }
    }
}

/// Whether `s` spells exactly the characters of `w`.
fn spells(s: &str, w: &[char]) -> (r: bool)
    ensures
        r == (s@ == w@),
{
    let n = s.unicode_len();
    if n != w.len() {
        return false;
    }
    let mut i: usize = 0;
    while i < n
        invariant
            n == s@.len(),
            n == w@.len(),
            i <= n,
            forall|j: int| 0 <= j < i ==> s@[j] == w@[j],
        decreases n - i,
    {
        if s.get_char(i) != w[i] {
            return false;
        }
        i = i + 1;
    }
    assert(s@ =~= w@);
    true
}

/// The token for a scanned word: a keyword token, or an identifier holding it.
pub fn lookup_keyword(literal: String) -> (r: Token)
    ensures
        r == word_token(literal),
{
    let s = literal.as_str();
    let w = ['l', 'e', 't'];
    assert(w@ =~= seq!['l', 'e', 't']);
    if spells(s, &w) {
        return Token::Let;
    }
    let w = ['f', 'n'];
    assert(w@ =~= seq!['f', 'n']);
    if spells(s, &w) {
        return Token::Function;
    }
    let w = ['i', 'f'];
    assert(w@ =~= seq!['i', 'f']);
    if spells(s, &w) {
        return Token::If;
    }
    let w = ['e', 'l', 's', 'e'];
    assert(w@ =~= seq!['e', 'l', 's', 'e']);
    if spells(s, &w) {
        return Token::Else;
    }
    let w = ['w', 'h', 'i', 'l', 'e'];
    assert(w@ =~= seq!['w', 'h', 'i', 'l', 'e']);
    if spells(s, &w) {
        return Token::While;
    }
    let w = ['r', 'e', 't', 'u', 'r', 'n'];
    assert(w@ =~= seq!['r', 'e', 't', 'u', 'r', 'n']);
    if spells(s, &w) {
        return Token::Return;
    }
    let w = ['t', 'r', 'u', 'e'];
    assert(w@ =~= seq!['t', 'r', 'u', 'e']);
    if spells(s, &w) {
        return Token::True;
    }
    let w = ['f', 'a', 'l', 's', 'e'];
    assert(w@ =~= seq!['f', 'a', 'l', 's', 'e']);
    if spells(s, &w) {
        return Token::False;
    }
    Token::Ident(literal)
}

} // verus!
