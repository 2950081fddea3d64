use vstd::prelude::*;
use crate::token::{keyword_of, lookup_keyword, Token};

verus! {

/// Space, tab, newline and carriage return separate tokens.
pub open spec fn is_space(c: char) -> bool {
    c == ' ' || c == '\t' || c == '\n' || c == '\r'
}

/// The characters that words are made of.
pub open spec fn is_letter(c: char) -> bool {
    ('a' <= c && c <= 'z') || ('A' <= c && c <= 'Z') || c == '_'
}

pub open spec fn is_digit(c: char) -> bool {
    '0' <= c && c <= '9'
}

/// The first position at or after `p` that holds no white space.
pub open spec fn skip_space(s: Seq<char>, p: nat) -> nat
    decreases s.len() - p,
{
    if p < s.len() && is_space(s[p as int]) {
        skip_space(s, p + 1)
    } else {
        p
    }
}

/// The end of the run of letters that starts at `p`.
pub open spec fn word_end(s: Seq<char>, p: nat) -> nat
    decreases s.len() - p,
{
    if p < s.len() && is_letter(s[p as int]) {
        word_end(s, p + 1)
    } else {
        p
    }
}

/// The end of the run of digits that starts at `p`.
pub open spec fn digits_end(s: Seq<char>, p: nat) -> nat
    decreases s.len() - p,
{
    if p < s.len() && is_digit(s[p as int]) {
        digits_end(s, p + 1)
    } else {
        p
    }
}

/// The number that a string of decimal digits denotes.
pub open spec fn decimal(d: Seq<char>) -> nat
    decreases d.len(),
{
    if d.len() == 0 {
        0
    } else {
        decimal(d.drop_last()) * 10 + (d.last() as nat - '0' as nat) as nat
    }
}

/// A token that is one character `c`, or two where the second is `=`.
pub open spec fn symbol(c: char, then_eq: bool) -> Option<(Token, nat)> {
    if c == '=' {
        Some(if then_eq { (Token::Eq, 2) } else { (Token::Assign, 1) })
    } else if c == '!' {
        Some(if then_eq { (Token::NotEq, 2) } else { (Token::Bang, 1) })
    } else if c == '+' {
        Some((Token::Plus, 1))
    } else if c == '-' {
        Some((Token::Minus, 1))
    } else if c == '*' {
        Some((Token::Star, 1))
    } else if c == '<' {
        Some(if then_eq { (Token::LTE, 2) } else { (Token::LT, 1) })
    } else if c == '>' {
        Some((Token::GT, 1))
    } else if c == ';' {
        Some((Token::Semicolon, 1))
    } else if c == '{' {
        Some((Token::LBrace, 1))
    } else if c == '}' {
        Some((Token::RBrace, 1))
    } else if c == '(' {
        Some((Token::LParen, 1))
    } else if c == ')' {
        Some((Token::RParen, 1))
    } else if c == ',' {
        Some((Token::Comma, 1))
    } else {
        None
    }
}

/// `t` is the token that starts at or after position `p` of `s` (after white
/// space), and `q` is the position just after it. Past the end the token is
/// `EOF`. A word is a keyword or an identifier; a run of digits is an integer,
/// or an illegal token when its value does not fit in an `i32`.
pub open spec fn lexes_as(s: Seq<char>, p: nat, t: Token, q: nat) -> bool {
    let b = skip_space(s, p);
    if b >= s.len() {
        t == Token::EOF && q == b
    } else {
        let c = s[b as int];
        let then_eq = b + 1 < s.len() && s[(b + 1) as int] == '=';
        if let Some((sym, width)) = symbol(c, then_eq) {
            t == sym && q == b + width
        } else if is_letter(c) {
            let w = s.subrange(b as int, word_end(s, b) as int);
            &&& q == word_end(s, b)
            &&& match keyword_of(w) {
                Some(k) => t == k,
                None => t is Ident && t->Ident_0@ == w,
            }
        } else if is_digit(c) {
            let v = decimal(s.subrange(b as int, digits_end(s, b) as int));
            &&& q == digits_end(s, b)
            &&& t == if v <= i32::MAX {
                Token::Int(v as i32)
            } else {
                Token::Illegal(c)
            }
        } else {
            t == Token::Illegal(c) && q == b + 1
        }
    }
}

/// White space is only ever skipped forward.
pub proof fn lemma_skip_space_forward(s: Seq<char>, p: nat)
    ensures
        p <= skip_space(s, p),
    decreases s.len() - p,
{
    if p < s.len() && is_space(s[p as int]) {
        lemma_skip_space_forward(s, p + 1);
    }
}

/// A run of letters or of digits ends at or after its start.
pub proof fn lemma_runs_forward(s: Seq<char>, p: nat)
    ensures
        p <= word_end(s, p),
        p <= digits_end(s, p),
    decreases s.len() - p,
{
    if p < s.len() {
        lemma_runs_forward(s, p + 1);
    }
}

/// Every token but `EOF` uses at least one character.
pub proof fn lemma_token_advances(s: Seq<char>, p: nat, t: Token, q: nat)
    requires
        lexes_as(s, p, t, q),
        t != Token::EOF,
    ensures
        p < q,
{
    lemma_skip_space_forward(s, p);
    lemma_runs_forward(s, skip_space(s, p) + 1);
}

/// `ts` is the token stream of `s`: each token lexes where the one before it
/// ended, starting at the beginning, and the stream ends at its only `EOF`.
pub open spec fn is_token_stream(s: Seq<char>, ts: Seq<Token>) -> bool {
    exists|ends: Seq<nat>| stream_with_ends(s, ts, ends)
}

/// `ts` is the token stream of `s`, with `ends[i]` where token `i` starts
/// being read and `ends[i + 1]` where it ends.
pub open spec fn stream_with_ends(s: Seq<char>, ts: Seq<Token>, ends: Seq<nat>) -> bool {
    &&& ts.len() > 0
    &&& ends.len() == ts.len() + 1
    &&& ends[0] == 0
    &&& forall|i: int| 0 <= i < ts.len() ==> lexes_as(s, #[trigger] ends[i], ts[i], ends[i + 1])
    &&& forall|i: int| 0 <= i < ts.len() ==> (#[trigger] ts[i] == Token::EOF <==> i == ts.len() - 1)
}

/// All the tokens of `src`, through the `EOF` that ends them.
pub fn tokenize(src: &String) -> (ts: Vec<Token>)
    ensures
        is_token_stream(src@, ts@),
{
    let ghost s = src@;
    let mut l = Lexer::new(src.clone());
    let mut ts: Vec<Token> = Vec::new();
    let ghost mut ends: Seq<nat> = seq![0];
    loop
        invariant
            l.wf(),
            s == src@,
            l.text() == s,
            ends.len() == ts@.len() + 1,
            ends[0] == 0,
            ends.last() == l.pos(),
            forall|i: int| 0 <= i < ts@.len() ==> lexes_as(s, #[trigger] ends[i], ts@[i], ends[i + 1]),
            forall|i: int| 0 <= i < ts@.len() ==> #[trigger] ts@[i] != Token::EOF,
        decreases s.len() - l.pos(),
    {
        let ghost p = l.pos();
        let t = l.next_token();
        let is_end = match t {
            Token::EOF => true,
            _ => false,
        };
        proof {
            ends = ends.push(l.pos());
        }
        ts.push(t);
        if is_end {
            assert(stream_with_ends(s, ts@, ends));
            assert(is_token_stream(s, ts@));
            return ts;
        }
        proof {
            lemma_token_advances(s, p, ts@.last(), l.pos());
        }
    }
}

/// A scanner that hands out the tokens of a source text one at a time.
#[derive(Debug)]
pub struct Lexer {
    src: String,
    len: usize,
    position: usize,
}

impl Lexer {
    /// The source text.
    pub closed spec fn text(&self) -> Seq<char> {
        self.src@
    }

    /// The position of the next character to read.
    pub closed spec fn pos(&self) -> nat {
        self.position as nat
    }

    pub closed spec fn wf(&self) -> bool {
        &&& self.len == self.src@.len()
        &&& self.position <= self.len
    }

    pub fn new(src: String) -> (r: Lexer)
        ensures
            r.wf(),
            r.text() == src@,
            r.pos() == 0,
    {
        let len = src.as_str().unicode_len();
        Lexer { src, len, position: 0 }
    }

    fn char_at(&self, i: usize) -> (c: Option<char>)
        requires
            self.wf(),
        ensures
            c == if i < self.text().len() {
                Some(self.text()[i as int])
            } else {
                None::<char>
            },
    {
        if i < self.len {
            Some(self.src.as_str().get_char(i))
        } else {
            None
        }
    }

    /// The next token; the lexer moves past it.
    pub fn next_token(&mut self) -> (t: Token)
        requires
            old(self).wf(),
        ensures
            final(self).wf(),
            final(self).text() == old(self).text(),
            lexes_as(old(self).text(), old(self).pos(), t, final(self).pos()),
    {
        self.skip_whitespace();
        let b = self.position;
        let c = match self.char_at(b) {
            Some(c) => c,
            None => return Token::EOF,
        };
        let then_eq = match self.char_at(b + 1) {
            Some(d) => d == '=',
            None => false,
        };
        self.position = b + 1;
        if c == '=' {
            if then_eq {
                self.position = b + 2;
                return Token::Eq;
            }
            return Token::Assign;
        }
        if c == '!' {
            if then_eq {
                self.position = b + 2;
                return Token::NotEq;
            }
            return Token::Bang;
        }
        if c == '+' {
            return Token::Plus;
        }
        if c == '-' {
            return Token::Minus;
        }
        if c == '*' {
            return Token::Star;
        }
        if c == '<' {
            if then_eq {
                self.position = b + 2;
                return Token::LTE;
            }
            return Token::LT;
        }
        if c == '>' {
            return Token::GT;
        }
        if c == ';' {
            return Token::Semicolon;
        }
        if c == '{' {
            return Token::LBrace;
        }
        if c == '}' {
            return Token::RBrace;
        }
        if c == '(' {
            return Token::LParen;
        }
        if c == ')' {
            return Token::RParen;
        }
        if c == ',' {
            return Token::Comma;
        }
        if ('a' <= c && c <= 'z') || ('A' <= c && c <= 'Z') || c == '_' {
            self.position = b;
            return self.read_word();
        }
        if '0' <= c && c <= '9' {
            self.position = b;
            return self.read_number();
        }
        Token::Illegal(c)
    }

    fn skip_whitespace(&mut self)
        requires
            old(self).wf(),
        ensures
            final(self).wf(),
            final(self).text() == old(self).text(),
            final(self).pos() == skip_space(old(self).text(), old(self).pos()),
    {
        loop
            invariant
                self.wf(),
                self.text() == old(self).text(),
                skip_space(self.text(), self.pos()) == skip_space(old(self).text(), old(self).pos()),
            decreases self.len - self.position,
        {
            match self.char_at(self.position) {
                Some(c) => {
                    if c == ' ' || c == '\t' || c == '\n' || c == '\r' {
                        self.position = self.position + 1;
                    } else {
                        return;
                    }
                },
                None => return,
            }
        }
    }

    /// The word that starts at the cursor: a keyword or an identifier.
    fn read_word(&mut self) -> (t: Token)
        requires
            old(self).wf(),
        ensures
            final(self).wf(),
            final(self).text() == old(self).text(),
            final(self).pos() == word_end(old(self).text(), old(self).pos()),
            match keyword_of(
                old(self).text().subrange(old(self).pos() as int, final(self).pos() as int),
            ) {
                Some(k) => t == k,
                None => t is Ident && t->Ident_0@ == old(self).text().subrange(
                    old(self).pos() as int,
                    final(self).pos() as int,
                ),
            },
    {
        let b = self.position;
        loop
            invariant
                self.wf(),
                self.text() == old(self).text(),
                b == old(self).pos(),
                b <= self.position,
                word_end(self.text(), self.pos()) == word_end(old(self).text(), old(self).pos()),
            ensures
                self.pos() == word_end(old(self).text(), old(self).pos()),
            decreases self.len - self.position,
        {
            match self.char_at(self.position) {
                Some(c) => {
                    if ('a' <= c && c <= 'z') || ('A' <= c && c <= 'Z') || c == '_' {
                        self.position = self.position + 1;
                    } else {
                        break;
                    }
                },
                None => break,
            }
        }
        let word = self.src.as_str().substring_char(b, self.position).to_owned();
        lookup_keyword(word)
    }

    /// The run of digits that starts at the cursor: an integer, or an
    /// illegal token holding its first digit when the value exceeds `i32`.
    fn read_number(&mut self) -> (t: Token)
        requires
            old(self).wf(),
            old(self).pos() < old(self).text().len(),
        ensures
            final(self).wf(),
            final(self).text() == old(self).text(),
            final(self).pos() == digits_end(old(self).text(), old(self).pos()),
            ({
                let v = decimal(
                    old(self).text().subrange(old(self).pos() as int, final(self).pos() as int),
                );
                t == if v <= i32::MAX {
                    Token::Int(v as i32)
                } else {
                    Token::Illegal(old(self).text()[old(self).pos() as int])
                }
            }),
    {
        let b = self.position;
        let first = self.src.as_str().get_char(b);
        let mut v: i64 = 0;
        let mut over = false;
        loop
            invariant
                self.wf(),
                self.text() == old(self).text(),
                b == old(self).pos(),
                b <= self.position,
                digits_end(self.text(), self.pos()) == digits_end(old(self).text(), old(self).pos()),
                !over ==> v == decimal(self.text().subrange(b as int, self.pos() as int)) && v
                    <= i32::MAX,
                over ==> decimal(self.text().subrange(b as int, self.pos() as int)) > i32::MAX,
            ensures
                self.pos() == digits_end(old(self).text(), old(self).pos()),
            decreases self.len - self.position,
        {
            let c = match self.char_at(self.position) {
                Some(c) => c,
                None => break,
            };
            if !('0' <= c && c <= '9') {
                break;
            }
            let ghost before = self.text().subrange(b as int, self.pos() as int);
            let ghost after = self.text().subrange(b as int, self.pos() + 1 as int);
            assert(after.drop_last() =~= before);
            assert(after.last() == c);
            let d = (c as u32 - '0' as u32) as i64;
            if !over {
                v = v * 10 + d;
                if v > i32::MAX as i64 {
                    over = true;
                }
            } else {
                assert(decimal(after) >= decimal(before)) by (nonlinear_arith)
                    requires
                        decimal(after) == decimal(before) * 10 + (c as nat - '0' as nat) as nat,
                ;
            }
            self.position = self.position + 1;
        }
        if over {
            Token::Illegal(first)
        } else {
            Token::Int(v as i32)
        }
    }
}

} // verus!
