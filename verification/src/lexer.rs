//! The lexer: source text to tokens, one at a time, with one token of
//! lookahead.
//!
//! What the lexer delivers is stated by [`tokens_from`]: between tokens it
//! passes over white space and line comments ([`skip_trivia`]); a token
//! starts at the first character that is neither, and its kind and extent
//! follow from that character ([`token_kind`], [`token_end`]).

use crate::selection::{line_of, Selection};
use crate::text::same_text;
use crate::tokens::{ends_with_eof, Token, TokenKind, TokenStream, TokenView};
use vstd::prelude::*;

verus! {

pub open spec fn is_space(c: char) -> bool {
    c == ' ' || c == '\r' || c == '\t' || c == '\n'
}

pub open spec fn is_digit(c: char) -> bool {
    '0' <= c && c <= '9'
}

/// Letters of identifiers: ASCII letters and the underscore. Digits are no
/// part of an identifier.
pub open spec fn is_alpha(c: char) -> bool {
    ('A' <= c && c <= 'Z') || ('a' <= c && c <= 'z') || c == '_'
}

pub open spec fn digit() -> spec_fn(char) -> bool {
    |c: char| is_digit(c)
}

pub open spec fn alpha() -> spec_fn(char) -> bool {
    |c: char| is_alpha(c)
}

pub open spec fn not_newline() -> spec_fn(char) -> bool {
    |c: char| c != '\n'
}

pub open spec fn not_quote() -> spec_fn(char) -> bool {
    |c: char| c != '"'
}

/// The end of the longest run of characters of `class` that starts at `pos`.
pub open spec fn run_end(src: Seq<char>, pos: int, class: spec_fn(char) -> bool) -> int
    decreases src.len() - pos,
{
    if 0 <= pos < src.len() && class(src[pos]) {
        run_end(src, pos + 1, class)
    } else {
        pos
    }
}

/// A run ends in the text, holds only characters of its class, and is not
/// followed by one.
pub proof fn run_end_bounds(src: Seq<char>, pos: int, class: spec_fn(char) -> bool)
    requires
        0 <= pos <= src.len(),
    ensures
        pos <= run_end(src, pos, class) <= src.len(),
        forall|i: int| pos <= i < run_end(src, pos, class) ==> class(#[trigger] src[i]),
        run_end(src, pos, class) < src.len() ==> !class(src[run_end(src, pos, class)]),
    decreases src.len() - pos,
{
    if pos < src.len() && class(src[pos]) {
        run_end_bounds(src, pos + 1, class);
    }
}

/// A position that a run of `class` reaches and cannot pass is the run's end.
pub proof fn run_end_unique(src: Seq<char>, pos: int, end: int, class: spec_fn(char) -> bool)
    requires
        0 <= pos <= end <= src.len(),
        forall|i: int| pos <= i < end ==> class(#[trigger] src[i]),
        end < src.len() ==> !class(src[end]),
    ensures
        run_end(src, pos, class) == end,
    decreases end - pos,
{
    if pos < end {
        run_end_unique(src, pos + 1, end, class);
    }
}

/// The first position at or after `pos` that lies in neither white space
/// nor a line comment.
pub open spec fn skip_trivia(src: Seq<char>, pos: int) -> int
    decreases src.len() - pos,
{
    if pos < 0 || pos >= src.len() {
        pos
    } else if is_space(src[pos]) {
        skip_trivia(src, pos + 1)
    } else if src[pos] == '/' && pos + 1 < src.len() && src[pos + 1] == '/' {
        proof {
            run_end_bounds(src, pos + 2, not_newline());
        }
        skip_trivia(src, run_end(src, pos + 2, not_newline()))
    } else {
        pos
    }
}

pub proof fn skip_trivia_bounds(src: Seq<char>, pos: int)
    requires
        0 <= pos <= src.len(),
    ensures
        pos <= skip_trivia(src, pos) <= src.len(),
    decreases src.len() - pos,
{
    if pos < src.len() {
        if is_space(src[pos]) {
            skip_trivia_bounds(src, pos + 1);
        } else if src[pos] == '/' && pos + 1 < src.len() && src[pos + 1] == '/' {
            run_end_bounds(src, pos + 2, not_newline());
            skip_trivia_bounds(src, run_end(src, pos + 2, not_newline()));
        }
    }
}

/// Whether the character after position `p` is `=`.
pub open spec fn before_equal(src: Seq<char>, p: int) -> bool {
    p + 1 < src.len() && src[p + 1] == '='
}

/// The reserved word that `text` spells, or `Identifier`.
pub open spec fn keyword(text: Seq<char>) -> TokenKind {
    if text == "and"@ {
        TokenKind::And
    } else if text == "class"@ {
        TokenKind::Class
    } else if text == "else"@ {
        TokenKind::Else
    } else if text == "false"@ {
        TokenKind::False
    } else if text == "for"@ {
        TokenKind::For
    } else if text == "fun"@ {
        TokenKind::Fun
    } else if text == "if"@ {
        TokenKind::If
    } else if text == "nil"@ {
        TokenKind::Nil
    } else if text == "or"@ {
        TokenKind::Or
    } else if text == "print"@ {
        TokenKind::Print
    } else if text == "return"@ {
        TokenKind::Return
    } else if text == "super"@ {
        TokenKind::Super
    } else if text == "this"@ {
        TokenKind::This
    } else if text == "true"@ {
        TokenKind::True
    } else if text == "var"@ {
        TokenKind::Var
    } else if text == "while"@ {
        TokenKind::While
    } else {
        TokenKind::Identifier
    }
}

/// Where the token that starts at `p` ends. `p` is a position in the text,
/// outside white space and comments.
pub open spec fn token_end(src: Seq<char>, p: int) -> int {
    let c = src[p];
    if (c == '!' || c == '=' || c == '<' || c == '>') && before_equal(src, p) {
        p + 2
    } else if c == '"' {
        let close = run_end(src, p + 1, not_quote());
        if close < src.len() {
            close + 1
        } else {
            close
        }
    } else if is_digit(c) {
        let whole = run_end(src, p + 1, digit());
        if whole + 1 < src.len() && src[whole] == '.' && is_digit(src[whole + 1]) {
            run_end(src, whole + 1, digit())
        } else {
            whole
        }
    } else if is_alpha(c) {
        run_end(src, p + 1, alpha())
    } else {
        p + 1
    }
}

/// The kind of the token that starts at `p`.
pub open spec fn token_kind(src: Seq<char>, p: int) -> TokenKind {
    let c = src[p];
    if c == '(' {
        TokenKind::LeftParen
    } else if c == ')' {
        TokenKind::RightParen
    } else if c == '{' {
        TokenKind::LeftBrace
    } else if c == '}' {
        TokenKind::RightBrace
    } else if c == ',' {
        TokenKind::Comma
    } else if c == '.' {
        TokenKind::Dot
    } else if c == '-' {
        TokenKind::Minus
    } else if c == '+' {
        TokenKind::Plus
    } else if c == ';' {
        TokenKind::Semicolon
    } else if c == '*' {
        TokenKind::Star
    } else if c == '!' {
        if before_equal(src, p) {
            TokenKind::BangEqual
        } else {
            TokenKind::Bang
        }
    } else if c == '=' {
        if before_equal(src, p) {
            TokenKind::EqualEqual
        } else {
            TokenKind::Equal
        }
    } else if c == '<' {
        if before_equal(src, p) {
            TokenKind::LessEqual
        } else {
            TokenKind::Less
        }
    } else if c == '>' {
        if before_equal(src, p) {
            TokenKind::GreaterEqual
        } else {
            TokenKind::Greater
        }
    } else if c == '/' {
        TokenKind::Slash
    } else if c == '"' {
        if run_end(src, p + 1, not_quote()) < src.len() {
            TokenKind::String
        } else {
            TokenKind::StringUnterminated
        }
    } else if is_digit(c) {
        TokenKind::Number
    } else if is_alpha(c) {
        keyword(src.subrange(p, token_end(src, p)))
    } else {
        TokenKind::Unknown
    }
}

/// The end-of-input token of `src`.
pub open spec fn eof_token(src: Seq<char>) -> TokenView {
    TokenView {
        kind: TokenKind::Eof,
        lexeme: Seq::<char>::empty(),
        line: line_of(src, src.len() as int),
    }
}

/// The token that starts at `p`: its lexeme is the exact slice of the text,
/// its line that of its first character.
pub open spec fn token_at(src: Seq<char>, p: int) -> TokenView {
    if 0 <= p < src.len() {
        TokenView {
            kind: token_kind(src, p),
            lexeme: src.subrange(p, token_end(src, p)),
            line: line_of(src, p),
        }
    } else {
        eof_token(src)
    }
}

/// A token holds at least one character and ends in the text.
pub proof fn token_end_bounds(src: Seq<char>, p: int)
    requires
        0 <= p < src.len(),
    ensures
        p < token_end(src, p) <= src.len(),
{
    run_end_bounds(src, p + 1, not_quote());
    run_end_bounds(src, p + 1, digit());
    run_end_bounds(src, p + 1, alpha());
    let whole = run_end(src, p + 1, digit());
    if whole + 1 < src.len() {
        run_end_bounds(src, whole + 1, digit());
    }
}

/// Where the lexer stands after it has delivered the first token at or
/// after `pos`.
pub open spec fn next_pos(src: Seq<char>, pos: int) -> int {
    let p = skip_trivia(src, pos);
    if 0 <= p < src.len() {
        token_end(src, p)
    } else {
        src.len() as int
    }
}

/// The tokens of `src` from position `pos` on, the end-of-input token last.
pub open spec fn tokens_from(src: Seq<char>, pos: int) -> Seq<TokenView>
    decreases src.len() - pos,
{
    let p = skip_trivia(src, pos);
    if 0 <= pos <= p < src.len() {
        proof {
            token_end_bounds(src, p);
        }
        seq![token_at(src, p)] + tokens_from(src, token_end(src, p))
    } else {
        seq![eof_token(src)]
    }
}

/// The tokens of a whole text.
pub open spec fn tokens_of(src: Seq<char>) -> Seq<TokenView> {
    tokens_from(src, 0)
}

/// Lexing is total and ends with the end-of-input token, which occurs
/// nowhere else.
pub proof fn tokens_end_with_eof(src: Seq<char>, pos: int)
    requires
        0 <= pos <= src.len(),
    ensures
        ends_with_eof(tokens_from(src, pos)),
    decreases src.len() - pos,
{
    let p = skip_trivia(src, pos);
    skip_trivia_bounds(src, pos);
    if p < src.len() {
        token_end_bounds(src, p);
        tokens_end_with_eof(src, token_end(src, p));
        let rest = tokens_from(src, token_end(src, p));
        let all = tokens_from(src, pos);
        assert(all == seq![token_at(src, p)] + rest);
        assert forall|i: int| 0 <= i < all.len() - 1 implies (#[trigger] all[i]).kind
            != TokenKind::Eof by {
            if i > 0 {
                assert(all[i] == rest[i - 1]);
            }
        }
        assert(all.last() == rest.last());
    }
}

/// What the lexer passes over and delivers from `pos` on, put together
/// again: the skipped white space and comments, each token's lexeme, and so
/// on to the end.
pub open spec fn rebuilt(src: Seq<char>, pos: int) -> Seq<char>
    decreases src.len() - pos,
{
    let p = skip_trivia(src, pos);
    if 0 <= pos <= p < src.len() {
        proof {
            token_end_bounds(src, p);
        }
        src.subrange(pos, p) + token_at(src, p).lexeme + rebuilt(src, token_end(src, p))
    } else if 0 <= pos <= src.len() {
        src.subrange(pos, src.len() as int)
    } else {
        Seq::<char>::empty()
    }
}

/// The lexemes, interleaved with what was skipped between them, reproduce
/// the source.
pub proof fn lexemes_reproduce_source(src: Seq<char>, pos: int)
    requires
        0 <= pos <= src.len(),
    ensures
        rebuilt(src, pos) == src.subrange(pos, src.len() as int),
    decreases src.len() - pos,
{
    let p = skip_trivia(src, pos);
    skip_trivia_bounds(src, pos);
    if p < src.len() {
        token_end_bounds(src, p);
        let e = token_end(src, p);
        lexemes_reproduce_source(src, e);
        assert(src.subrange(pos, p) + src.subrange(p, e) + src.subrange(e, src.len() as int)
            =~= src.subrange(pos, src.len() as int));
    }
}

fn not_quote_char(c: char) -> (b: bool)
    ensures
        b == (c != '"'),
{
    c != '"'
}

fn not_newline_char(c: char) -> (b: bool)
    ensures
        b == (c != '\n'),
{
    c != '\n'
}

fn digit_char(c: char) -> (b: bool)
    ensures
        b == is_digit(c),
{
    '0' <= c && c <= '9'
}

fn alpha_char(c: char) -> (b: bool)
    ensures
        b == is_alpha(c),
{
    ('A' <= c && c <= 'Z') || ('a' <= c && c <= 'z') || c == '_'
}

/// The kind of an identifier-like word.
fn keyword_kind(text: &str) -> (k: TokenKind)
    ensures
        k == keyword(text@),
{
    if same_text(text, "and") {
        TokenKind::And
    } else if same_text(text, "class") {
        TokenKind::Class
    } else if same_text(text, "else") {
        TokenKind::Else
    } else if same_text(text, "false") {
        TokenKind::False
    } else if same_text(text, "for") {
        TokenKind::For
    } else if same_text(text, "fun") {
        TokenKind::Fun
    } else if same_text(text, "if") {
        TokenKind::If
    } else if same_text(text, "nil") {
        TokenKind::Nil
    } else if same_text(text, "or") {
        TokenKind::Or
    } else if same_text(text, "print") {
        TokenKind::Print
    } else if same_text(text, "return") {
        TokenKind::Return
    } else if same_text(text, "super") {
        TokenKind::Super
    } else if same_text(text, "this") {
        TokenKind::This
    } else if same_text(text, "true") {
        TokenKind::True
    } else if same_text(text, "var") {
        TokenKind::Var
    } else if same_text(text, "while") {
        TokenKind::While
    } else {
        TokenKind::Identifier
    }
}

/// A lexer over one source text.
pub struct Lexer {
    selection: Selection,
    peeked: Option<Token>,
}

impl Lexer {
    /// The text that is being read.
    pub closed spec fn source(&self) -> Seq<char> {
        self.selection@.source
    }

    /// The position up to which the text has been read.
    pub closed spec fn position(&self) -> int {
        self.selection@.end
    }

    /// The token that was read ahead, if any.
    pub closed spec fn lookahead(&self) -> Option<TokenView> {
        match self.peeked {
            Some(t) => Some(t@),
            None => None,
        }
    }

    /// The lexer's invariant.
    pub closed spec fn inv(&self) -> bool {
        &&& self.selection.wf()
        &&& match self.peeked {
            Some(t) => t@.kind == TokenKind::Eof ==> t@ == eof_token(self.source())
                && self.position() == self.source().len(),
            None => true,
        }
    }

    /// The tokens yet to be delivered: the one read ahead, if any, and those
    /// of the rest of the text.
    pub open spec fn pending(&self) -> Seq<TokenView> {
        match self.lookahead() {
            Some(t) => if t.kind == TokenKind::Eof {
                seq![t]
            } else {
                seq![t] + tokens_from(self.source(), self.position())
            },
            None => tokens_from(self.source(), self.position()),
        }
    }

    /// A lexer at the beginning of `source`.
    pub fn new(source: &str) -> (lexer: Lexer)
        ensures
            lexer.inv(),
            lexer.source() == source@,
            lexer.position() == 0,
            lexer.lookahead() is None,
            lexer.pending() == tokens_of(source@),
    {
        Lexer { selection: Selection::new(source), peeked: None }
    }

    /// The token of the given kind whose text is the current selection.
    fn token(&self, kind: TokenKind, line: u32) -> (t: Token)
        requires
            self.selection.wf(),
        ensures
            t@ == (TokenView { kind, lexeme: self.selection@.selected(), line }),
    {
        Token { kind, lexeme: self.selection.str(), line }
    }

    /// Reads on to the end of a string literal whose opening quote was just read.
    fn string_token(&mut self, line: u32) -> (t: Token)
        requires
            old(self).selection.wf(),
            old(self).selection@.start + 1 == old(self).selection@.end,
            old(self).source()[old(self).selection@.start] == '"',
            line == line_of(old(self).source(), old(self).selection@.start),
        ensures
            final(self).selection.wf(),
            final(self).source() == old(self).source(),
            final(self).peeked == old(self).peeked,
            t@ == token_at(old(self).source(), old(self).selection@.start),
            final(self).position() == token_end(old(self).source(), old(self).selection@.start),
    {
        let ghost src = self.source();
        let ghost p = self.selection@.start;
        self.selection.advance_while(not_quote_char);
        proof {
            run_end_unique(src, p + 1, self.selection@.end, not_quote());
        }
        if self.selection.eof() {
            self.token(TokenKind::StringUnterminated, line)
        } else {
            self.selection.advance();
            self.token(TokenKind::String, line)
        }
    }

    /// Reads on to the end of a number whose first digit was just read.
    fn number_token(&mut self, line: u32) -> (t: Token)
        requires
            old(self).selection.wf(),
            old(self).selection@.start + 1 == old(self).selection@.end,
            is_digit(old(self).source()[old(self).selection@.start]),
            line == line_of(old(self).source(), old(self).selection@.start),
        ensures
            final(self).selection.wf(),
            final(self).source() == old(self).source(),
            final(self).peeked == old(self).peeked,
            t@ == token_at(old(self).source(), old(self).selection@.start),
            final(self).position() == token_end(old(self).source(), old(self).selection@.start),
    {
        let ghost src = self.source();
        let ghost p = self.selection@.start;
        self.selection.advance_while(digit_char);
        proof {
            run_end_unique(src, p + 1, self.selection@.end, digit());
        }
        let ghost whole = self.selection@.end;
        let dot = self.selection.peek();
        let after = self.selection.peek_second();
        let fraction = match (dot, after) {
            (Some(d), Some(a)) => d == '.' && '0' <= a && a <= '9',
            _ => false,
        };
        if fraction {
            self.selection.advance();
            self.selection.advance_while(digit_char);
            proof {
                run_end_unique(src, whole + 1, self.selection@.end, digit());
            }
        }
        self.token(TokenKind::Number, line)
    }

    /// Reads on to the end of a word whose first letter was just read.
    fn ident_token(&mut self, line: u32) -> (t: Token)
        requires
            old(self).selection.wf(),
            old(self).selection@.start + 1 == old(self).selection@.end,
            is_alpha(old(self).source()[old(self).selection@.start]),
            line == line_of(old(self).source(), old(self).selection@.start),
        ensures
            final(self).selection.wf(),
            final(self).source() == old(self).source(),
            final(self).peeked == old(self).peeked,
            t@ == token_at(old(self).source(), old(self).selection@.start),
            final(self).position() == token_end(old(self).source(), old(self).selection@.start),
    {
        let ghost src = self.source();
        let ghost p = self.selection@.start;
        self.selection.advance_while(alpha_char);
        proof {
            run_end_unique(src, p + 1, self.selection@.end, alpha());
        }
        let text = self.selection.str();
        let kind = keyword_kind(text.as_str());
        Token { kind, lexeme: text, line }
    }

    /// The token of one character, or of two where `=` follows.
    fn operator_token(&mut self, alone: TokenKind, with_equal: TokenKind, line: u32) -> (t: Token)
        requires
            old(self).selection.wf(),
            old(self).selection@.start + 1 == old(self).selection@.end,
        ensures
            final(self).selection.wf(),
            final(self).source() == old(self).source(),
            final(self).peeked == old(self).peeked,
            final(self).selection@.start == old(self).selection@.start,
            before_equal(old(self).source(), old(self).selection@.start) ==> t@.kind == with_equal
                && final(self).position() == old(self).selection@.start + 2,
            !before_equal(old(self).source(), old(self).selection@.start) ==> t@.kind == alone
                && final(self).position() == old(self).selection@.start + 1,
            t@.lexeme == final(self).selection@.selected(),
            t@.line == line,
    {
        if self.selection.advance_match('=') {
            self.token(with_equal, line)
        } else {
            self.token(alone, line)
        }
    }

    /// Reads the next token from the text, passing over white space and
    /// comments before it.
    fn scan(&mut self) -> (t: Token)
        requires
            old(self).selection.wf(),
        ensures
            final(self).selection.wf(),
            final(self).source() == old(self).source(),
            final(self).peeked == old(self).peeked,
            t@ == token_at(old(self).source(), skip_trivia(old(self).source(), old(self).position())),
            final(self).position() == next_pos(old(self).source(), old(self).position()),
    {
        let ghost src = self.source();
        let ghost from = self.position();
        loop
            invariant
                self.selection.wf(),
                self.source() == src,
                self.peeked == old(self).peeked,
                src == old(self).source(),
                from == old(self).position(),
                from <= self.position(),
                skip_trivia(src, self.position()) == skip_trivia(src, from),
            decreases src.len() - self.position(),
        {
            self.selection.clear();
            let line = self.selection.line();
            let ghost p = self.selection@.start;
            let c = match self.selection.advance() {
                Some(c) => c,
                None => {
                    assert(src.subrange(p, p) =~= Seq::<char>::empty());
                    return self.token(TokenKind::Eof, line);
                },
            };
            proof {
                assert(src.subrange(p, p + 1) =~= seq![c]);
                run_end_bounds(src, p + 1, not_quote());
                run_end_bounds(src, p + 1, digit());
                run_end_bounds(src, p + 1, alpha());
            }
            if c == ' ' || c == '\r' || c == '\t' || c == '\n' {
            } else if c == '(' {
                return self.token(TokenKind::LeftParen, line);
            } else if c == ')' {
                return self.token(TokenKind::RightParen, line);
            } else if c == '{' {
                return self.token(TokenKind::LeftBrace, line);
            } else if c == '}' {
                return self.token(TokenKind::RightBrace, line);
            } else if c == ',' {
                return self.token(TokenKind::Comma, line);
            } else if c == '.' {
                return self.token(TokenKind::Dot, line);
            } else if c == '-' {
                return self.token(TokenKind::Minus, line);
            } else if c == '+' {
                return self.token(TokenKind::Plus, line);
            } else if c == ';' {
                return self.token(TokenKind::Semicolon, line);
            } else if c == '*' {
                return self.token(TokenKind::Star, line);
            } else if c == '!' {
                return self.operator_token(TokenKind::Bang, TokenKind::BangEqual, line);
            } else if c == '=' {
                return self.operator_token(TokenKind::Equal, TokenKind::EqualEqual, line);
            } else if c == '<' {
                return self.operator_token(TokenKind::Less, TokenKind::LessEqual, line);
            } else if c == '>' {
                return self.operator_token(TokenKind::Greater, TokenKind::GreaterEqual, line);
            } else if c == '/' {
                if self.selection.advance_match('/') {
                    self.selection.advance_while(not_newline_char);
                    proof {
                        run_end_unique(src, p + 2, self.selection@.end, not_newline());
                    }
                } else {
                    return self.token(TokenKind::Slash, line);
                }
            } else if c == '"' {
                return self.string_token(line);
            } else if '0' <= c && c <= '9' {
                return self.number_token(line);
            } else if ('A' <= c && c <= 'Z') || ('a' <= c && c <= 'z') || c == '_' {
                return self.ident_token(line);
            } else {
                return self.token(TokenKind::Unknown, line);
            }
        }
    }
}

impl TokenStream for Lexer {
    open spec fn remaining(&self) -> Seq<TokenView> {
        self.pending()
    }

    open spec fn wf(&self) -> bool {
        self.inv()
    }

    proof fn remaining_ends_with_eof(&self) {
        tokens_end_with_eof(self.source(), self.position());
        let rest = tokens_from(self.source(), self.position());
        let all = self.remaining();
        match self.lookahead() {
            Some(t) => {
                if t.kind != TokenKind::Eof {
                    assert forall|i: int| 0 <= i < all.len() - 1 implies (#[trigger] all[i]).kind
                        != TokenKind::Eof by {
                        if i > 0 {
                            assert(all[i] == rest[i - 1]);
                        }
                    }
                    assert(all.last() == rest.last());
                }
            },
            None => {},
        }
    }

    fn next(&mut self) -> (t: Token) {
        proof {
            skip_trivia_bounds(self.source(), self.position());
        }
        match self.peeked.take() {
            Some(token) => token,
            None => self.scan(),
        }
    }

    fn peek(&mut self) -> (t: Token) {
        proof {
            skip_trivia_bounds(self.source(), self.position());
        }
        match &self.peeked {
            Some(token) => token.clone(),
            None => {
                let token = self.scan();
                let copy = token.clone();
                self.peeked = Some(token);
                copy
            },
        }
    }
}


} // verus!
