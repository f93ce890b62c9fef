//! Tokens of the language and the stream interface through which the parser
//! reads them.

use crate::text::{chars_of, text_of, trim_bounds};
use vstd::prelude::*;

verus! {

/// What a token is.
#[derive(Debug, Clone, Copy, PartialEq, Eq, Structural)]
pub enum TokenKind {
    // single character
    LeftParen,
    RightParen,
    LeftBrace,
    RightBrace,
    Comma,
    Dot,
    Minus,
    Plus,
    Semicolon,
    Slash,
    Star,
    // one or two characters
    Bang,
    BangEqual,
    Equal,
    EqualEqual,
    Greater,
    GreaterEqual,
    Less,
    LessEqual,
    // literals
    Identifier,
    /// A string literal that was closed; its text is the lexeme without the quotes.
    String,
    /// A string literal that ran into the end of the input.
    StringUnterminated,
    /// A decimal number; its digits are the lexeme.
    Number,
    // keywords
    And,
    Class,
    Else,
    False,
    Fun,
    For,
    If,
    Nil,
    Or,
    Print,
    Return,
    Super,
    This,
    True,
    Var,
    While,
    /// A character that starts no token.
    Unknown,
    /// End of input.
    Eof,
}

impl Default for TokenKind {
    fn default() -> (k: TokenKind)
        ensures
            k == TokenKind::Eof,
    {
        TokenKind::Eof
    }
}

/// A token: its kind, the exact source text it was read from, and the
/// 1-based line of its first character.
#[derive(Debug)]
pub struct Token {
    pub kind: TokenKind,
    pub lexeme: String,
    pub line: u32,
}

/// The mathematical value of a [`Token`].
pub struct TokenView {
    pub kind: TokenKind,
    pub lexeme: Seq<char>,
    pub line: u32,
}

impl View for Token {
    type V = TokenView;

    open spec fn view(&self) -> TokenView {
        TokenView { kind: self.kind, lexeme: self.lexeme@, line: self.line }
    }
}

impl Clone for Token {
    fn clone(&self) -> (t: Token)
        ensures
            t@ == self@,
    {
        Token { kind: self.kind, lexeme: self.lexeme.clone(), line: self.line }
    }
}

impl PartialEq for Token {
    fn eq(&self, other: &Token) -> (r: bool) {
        self.kind == other.kind && self.lexeme == other.lexeme && self.line == other.line
    }
}

impl vstd::std_specs::cmp::PartialEqSpecImpl for Token {
    open spec fn obeys_eq_spec() -> bool {
        true
    }

    open spec fn eq_spec(&self, other: &Token) -> bool {
        self@ == other@
    }
}

impl Token {
    /// The text of a string literal: the lexeme without its opening quote
    /// and, when the literal was closed, without its closing quote.
    pub open spec fn spec_string_value(t: TokenView) -> Seq<char> {
        if t.lexeme.len() == 0 {
            t.lexeme
        } else if t.kind == TokenKind::String && t.lexeme.len() >= 2 {
            t.lexeme.subrange(1, t.lexeme.len() - 1)
        } else {
            t.lexeme.subrange(1, t.lexeme.len() as int)
        }
    }

    /// The text of a string literal: the lexeme without its quotes.
    pub fn string_value(&self) -> (s: String)
        ensures
            s@ == Token::spec_string_value(self@),
    {
        let chars = chars_of(self.lexeme.as_str());
        let n = chars.len();
        if n == 0 {
            assert(self.lexeme@.subrange(0, 0) =~= self.lexeme@);
            text_of(&chars, 0, 0)
        } else if self.kind == TokenKind::String && n >= 2 {
            trim_bounds(self.lexeme.as_str(), 1)
        } else {
            text_of(&chars, 1, n)
        }
    }
}

/// Whether `ts` can be what a stream has yet to deliver: it ends with the
/// end-of-input token, and holds no other.
pub open spec fn ends_with_eof(ts: Seq<TokenView>) -> bool {
    &&& ts.len() > 0
    &&& ts.last().kind == TokenKind::Eof
    &&& forall|i: int| 0 <= i < ts.len() - 1 ==> (#[trigger] ts[i]).kind != TokenKind::Eof
}

/// What is left of `ts` after its first token was delivered. The
/// end-of-input token is never used up.
pub open spec fn after_next(ts: Seq<TokenView>) -> Seq<TokenView> {
    if ts.len() > 1 {
        ts.skip(1)
    } else {
        ts
    }
}

/// A lazy stream of tokens with one token of lookahead.
pub trait TokenStream {
    /// The tokens that the stream has yet to deliver.
    spec fn remaining(&self) -> Seq<TokenView>;

    /// The stream's own invariant.
    spec fn wf(&self) -> bool;

    /// A well-formed stream ends with the end-of-input token.
    proof fn remaining_ends_with_eof(&self)
        requires
            self.wf(),
        ensures
            ends_with_eof(self.remaining()),
    ;

    /// Delivers the next token. At the end of the input it delivers the
    /// end-of-input token, again and again.
    fn next(&mut self) -> (t: Token)
        requires
            old(self).wf(),
        ensures
            final(self).wf(),
            t@ == old(self).remaining()[0],
            final(self).remaining() == after_next(old(self).remaining()),
    ;

    /// The token that `next` will deliver, without delivering it.
    fn peek(&mut self) -> (t: Token)
        requires
            old(self).wf(),
        ensures
            final(self).wf(),
            t@ == old(self).remaining()[0],
            final(self).remaining() == old(self).remaining(),
    ;
}

/// Delivers the next token if it is of the given kind (`Ok`); else leaves
/// it in the stream and returns a copy of it (`Err`).
pub fn match_next<S: TokenStream>(stream: &mut S, kind: TokenKind) -> (r: Result<Token, Token>)
    requires
        old(stream).wf(),
    ensures
        final(stream).wf(),
        match r {
            Ok(t) => {
                &&& t@ == old(stream).remaining()[0]
                &&& t@.kind == kind
                &&& final(stream).remaining() == after_next(old(stream).remaining())
            },
            Err(t) => {
                &&& t@ == old(stream).remaining()[0]
                &&& t@.kind != kind
                &&& final(stream).remaining() == old(stream).remaining()
            },
        },
{
    let token = stream.peek();
    if token.kind == kind {
        Ok(stream.next())
    } else {
        Err(token)
    }
}

/// Whether the stream is at the end of the input.
pub fn eof<S: TokenStream>(stream: &mut S) -> (r: bool)
    requires
        old(stream).wf(),
    ensures
        final(stream).wf(),
        final(stream).remaining() == old(stream).remaining(),
        r == (old(stream).remaining()[0].kind == TokenKind::Eof),
        r == (old(stream).remaining().len() == 1),
{
    proof {
        stream.remaining_ends_with_eof();
    }
    let token = stream.peek();
    token.kind == TokenKind::Eof
}

} // verus!
