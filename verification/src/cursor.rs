//! A cursor over source text: a position that only moves forward, and the
//! start of the text that was read since the last reset.

use crate::selection::{line_of, line_of_next};
use crate::text::{chars_of, text_of};
use vstd::prelude::*;

verus! {

/// The mathematical value of a [`Cursor`].
pub struct CursorView {
    /// The whole text.
    pub source: Seq<char>,
    /// Where the text read since the last reset begins.
    pub start: int,
    /// The position of the next character to read.
    pub current: int,
    /// The line of the current position.
    pub line: u32,
}

impl CursorView {
    /// The text read since the last reset.
    pub open spec fn read(self) -> Seq<char> {
        self.source.subrange(self.start, self.current)
    }

    /// The character at the current position, if any.
    pub open spec fn next_char(self) -> Option<char> {
        if self.current < self.source.len() {
            Some(self.source[self.current])
        } else {
            None
        }
    }

    /// The same cursor moved to `current`.
    pub open spec fn moved_to(self, current: int) -> CursorView {
        CursorView { current, line: line_of(self.source, current), ..self }
    }

    pub open spec fn wf(self) -> bool {
        &&& 0 <= self.start <= self.current <= self.source.len()
        &&& self.line == line_of(self.source, self.current)
    }
}

/// A forward-only reader of source text.
pub struct Cursor {
    source: Vec<char>,
    start: usize,
    current: usize,
    line: u32,
}

impl View for Cursor {
    type V = CursorView;

    closed spec fn view(&self) -> CursorView {
        CursorView {
            source: self.source@,
            start: self.start as int,
            current: self.current as int,
            line: self.line,
        }
    }
}

impl Cursor {
    /// The cursor's invariant: its positions lie in the text in order, and
    /// its line is that of its current position.
    pub open spec fn wf(&self) -> bool {
        self@.wf()
    }

    /// A cursor at the beginning of `source`.
    pub fn new(source: &str) -> (s: Cursor)
        ensures
            s.wf(),
            s@ == (CursorView { source: source@, start: 0, current: 0, line: 1 }),
    {
        let chars = chars_of(source);
        assert(chars@.take(0) =~= Seq::<char>::empty());
        Cursor { source: chars, start: 0, current: 0, line: 1 }
    }

    /// Reads one character and moves past it.
    pub fn advance(&mut self) -> (c: Option<char>)
        requires
            old(self).wf(),
        ensures
            final(self).wf(),
            c == old(self)@.next_char(),
            final(self)@ == if c is Some {
                old(self)@.moved_to(old(self)@.current + 1)
            } else {
                old(self)@
            },
    {
        if self.current >= self.source.len() {
            return None;
        }
        let c = self.source[self.current];
        proof {
            line_of_next(self.source@, self.current as int);
        }
        self.current += 1;
        if c == '\n' && self.line < u32::MAX {
            self.line += 1;
        }
        Some(c)
    }

    /// Moves past the next character if it is `expected`.
    pub fn match_current(&mut self, expected: char) -> (r: bool)
        requires
            old(self).wf(),
        ensures
            final(self).wf(),
            r == (old(self)@.next_char() == Some(expected)),
            final(self)@ == if r {
                old(self)@.moved_to(old(self)@.current + 1)
            } else {
                old(self)@
            },
    {
        match self.peek() {
            Some(c) => {
                if c == expected {
                    self.advance();
                    true
                } else {
                    false
                }
            },
            None => false,
        }
    }

    /// Moves on while `pred` holds of the next character.
    ///
    /// The cursor stops at the first character for which `pred` answers
    /// `false`, or at the end of the text.
    pub fn advance_while<F: Fn(char) -> bool>(&mut self, pred: F)
        requires
            old(self).wf(),
            forall|c: char| #[trigger] pred.requires((c,)),
        ensures
            final(self).wf(),
            old(self)@.current <= final(self)@.current,
            final(self)@ == old(self)@.moved_to(final(self)@.current),
            forall|i: int|
                old(self)@.current <= i < final(self)@.current ==> pred.ensures(
                    (#[trigger] final(self)@.source[i],),
                    true,
                ),
            final(self)@.current < final(self)@.source.len() ==> pred.ensures(
                (final(self)@.source[final(self)@.current],),
                false,
            ),
    {
        loop
            invariant
                self.wf(),
                old(self)@.current <= self@.current,
                self@ == old(self)@.moved_to(self@.current),
                forall|c: char| #[trigger] pred.requires((c,)),
                forall|i: int|
                    old(self)@.current <= i < self@.current ==> pred.ensures(
                        (#[trigger] self@.source[i],),
                        true,
                    ),
            ensures
                self@.current < self@.source.len() ==> pred.ensures((self@.source[self@.current],), false),
            decreases self@.source.len() - self@.current,
        {
            match self.peek() {
                Some(c) => {
                    if pred(c) {
                        self.advance();
                    } else {
                        break ;
                    }
                },
                None => {
                    break ;
                },
            }
        }
    }

    /// The next character, which stays unread.
    pub fn peek(&self) -> (c: Option<char>)
        requires
            self.wf(),
        ensures
            c == self@.next_char(),
    {
        if self.current < self.source.len() {
            Some(self.source[self.current])
        } else {
            None
        }
    }

    /// The character after the next one, which stays unread.
    pub fn peek_next(&self) -> (c: Option<char>)
        requires
            self.wf(),
        ensures
            c == if self@.current + 1 < self@.source.len() {
                Some(self@.source[self@.current + 1])
            } else {
                None
            },
    {
        if self.current < self.source.len() && self.current + 1 < self.source.len() {
            Some(self.source[self.current + 1])
        } else {
            None
        }
    }

    /// Forgets what was read: the start moves to the current position.
    pub fn reset_position(&mut self)
        requires
            old(self).wf(),
        ensures
            final(self).wf(),
            final(self)@ == (CursorView { start: old(self)@.current, ..old(self)@ }),
    {
        self.start = self.current
    }

    /// The text read since the last reset.
    pub fn current_str(&self) -> (s: String)
        requires
            self.wf(),
        ensures
            s@ == self@.read(),
    {
        text_of(&self.source, self.start, self.current)
    }

    /// The line of the current position.
    pub fn line(&self) -> (l: u32)
        ensures
            l == self@.line,
    {
        self.line
    }

    /// Whether the whole text was read.
    pub fn is_at_end(&self) -> (r: bool)
        requires
            self.wf(),
        ensures
            r == (self@.current == self@.source.len()),
    {
        self.current >= self.source.len()
    }
}

} // verus!
