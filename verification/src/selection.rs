//! An advancing selection over source text.

use crate::text::{chars_of, text_of};
use vstd::prelude::*;

verus! {

/// The number of line feeds in `s`.
pub open spec fn newlines(s: Seq<char>) -> nat
    decreases s.len(),
{
    if s.len() == 0 {
        0
    } else {
        newlines(s.drop_last()) + if s.last() == '\n' {
            1nat
        } else {
            0nat
        }
    }
}

/// The 1-based line on which position `pos` of `source` lies. A count that
/// does not fit the counter stays at the counter's greatest value.
pub open spec fn line_of(source: Seq<char>, pos: int) -> u32 {
    let n = 1 + newlines(source.take(pos));
    if n > u32::MAX {
        u32::MAX
    } else {
        n as u32
    }
}

/// Moving one position forward adds a line exactly when a line feed is passed.
pub proof fn line_of_next(source: Seq<char>, pos: int)
    requires
        0 <= pos < source.len(),
    ensures
        newlines(source.take(pos + 1)) == newlines(source.take(pos)) + if source[pos] == '\n' {
            1nat
        } else {
            0nat
        },
        line_of(source, pos + 1) == if source[pos] == '\n' && line_of(source, pos) < u32::MAX {
            (line_of(source, pos) + 1) as u32
        } else {
            line_of(source, pos)
        },
{
    assert(source.take(pos + 1).drop_last() =~= source.take(pos));
}

/// The mathematical value of a [`Selection`].
pub struct SelectionView {
    /// The whole text.
    pub source: Seq<char>,
    /// Where the selection begins.
    pub start: int,
    /// Where the selection ends; the next character to read.
    pub end: int,
    /// The line of the end position.
    pub line: u32,
}

impl SelectionView {
    /// The selected text.
    pub open spec fn selected(self) -> Seq<char> {
        self.source.subrange(self.start, self.end)
    }

    /// The character at the end position, if any.
    pub open spec fn next_char(self) -> Option<char> {
        if self.end < self.source.len() {
            Some(self.source[self.end])
        } else {
            None
        }
    }

    /// The same selection with its end moved to `end`.
    pub open spec fn with_end(self, end: int) -> SelectionView {
        SelectionView { end, line: line_of(self.source, end), ..self }
    }

    pub open spec fn wf(self) -> bool {
        &&& 0 <= self.start <= self.end <= self.source.len()
        &&& self.line == line_of(self.source, self.end)
    }
}

/// Advancing text selection.
pub struct Selection {
    source: Vec<char>,
    start: usize,
    end: usize,
    line: u32,
}

impl View for Selection {
    type V = SelectionView;

    closed spec fn view(&self) -> SelectionView {
        SelectionView {
            source: self.source@,
            start: self.start as int,
            end: self.end as int,
            line: self.line,
        }
    }
}

impl Selection {
    /// The selection's invariant: its bounds lie in the text in order, and
    /// its line is that of its end.
    pub open spec fn wf(&self) -> bool {
        self@.wf()
    }

    /// Creates an empty selection at the beginning of `source` text.
    pub fn new(source: &str) -> (s: Selection)
        ensures
            s.wf(),
            s@ == (SelectionView { source: source@, start: 0, end: 0, line: 1 }),
    {
        let chars = chars_of(source);
        assert(chars@.take(0) =~= Seq::<char>::empty());
        Selection { source: chars, start: 0, end: 0, line: 1 }
    }

    /// Advances the end of the selection by one character.
    pub fn advance(&mut self) -> (c: Option<char>)
        requires
            old(self).wf(),
        ensures
            final(self).wf(),
            c == old(self)@.next_char(),
            final(self)@ == if c is Some {
                old(self)@.with_end(old(self)@.end + 1)
            } else {
                old(self)@
            },
    {
        if self.end >= self.source.len() {
            return None;
        }
        let c = self.source[self.end];
        proof {
            line_of_next(self.source@, self.end as int);
        }
        self.end += 1;
        if c == '\n' && self.line < u32::MAX {
            self.line += 1;
        }
        Some(c)
    }

    /// Advances the end of the selection if the next character matches the `expected` character.
    pub fn advance_match(&mut self, expected: char) -> (r: bool)
        requires
            old(self).wf(),
        ensures
            final(self).wf(),
            r == (old(self)@.next_char() == Some(expected)),
            final(self)@ == if r {
                old(self)@.with_end(old(self)@.end + 1)
            } else {
                old(self)@
            },
    {
        match self.peek() {
            Some(c) => {
                if c == expected {
                    self.advance();
                    true
                } else {
                    false
                }
            },
            None => false,
        }
    }

    /// Continuously advances the end of the selection while the `pred` predicate is satisfied.
    ///
    /// The selection stops at the first character for which `pred` answers
    /// `false`, or at the end of the text.
    pub fn advance_while<F: Fn(char) -> bool>(&mut self, pred: F)
        requires
            old(self).wf(),
            forall|c: char| #[trigger] pred.requires((c,)),
        ensures
            final(self).wf(),
            old(self)@.end <= final(self)@.end,
            final(self)@ == old(self)@.with_end(final(self)@.end),
            forall|i: int|
                old(self)@.end <= i < final(self)@.end ==> pred.ensures(
                    (#[trigger] final(self)@.source[i],),
                    true,
                ),
            final(self)@.end < final(self)@.source.len() ==> pred.ensures(
                (final(self)@.source[final(self)@.end],),
                false,
            ),
    {
        loop
            invariant
                self.wf(),
                old(self)@.end <= self@.end,
                self@ == old(self)@.with_end(self@.end),
                forall|c: char| #[trigger] pred.requires((c,)),
                forall|i: int|
                    old(self)@.end <= i < self@.end ==> pred.ensures(
                        (#[trigger] self@.source[i],),
                        true,
                    ),
            ensures
                self@.end < self@.source.len() ==> pred.ensures((self@.source[self@.end],), false),
            decreases self@.source.len() - self@.end,
        {
            match self.peek() {
                Some(c) => {
                    if pred(c) {
                        self.advance();
                    } else {
                        break ;
                    }
                },
                None => {
                    break ;
                },
            }
        }
    }

    /// Peek at the next character without advancing the selection.
    pub fn peek(&self) -> (c: Option<char>)
        requires
            self.wf(),
        ensures
            c == self@.next_char(),
    {
        if self.end < self.source.len() {
            Some(self.source[self.end])
        } else {
            None
        }
    }

    /// Peek at the character after the next character without advancing the selection.
    pub fn peek_second(&self) -> (c: Option<char>)
        requires
            self.wf(),
        ensures
            c == if self@.end + 1 < self@.source.len() {
                Some(self@.source[self@.end + 1])
            } else {
                None
            },
    {
        if self.end < self.source.len() && self.end + 1 < self.source.len() {
            Some(self.source[self.end + 1])
        } else {
            None
        }
    }

    /// Clears the selection by moving its beginning to its end.
    pub fn clear(&mut self)
        requires
            old(self).wf(),
        ensures
            final(self).wf(),
            final(self)@ == (SelectionView { start: old(self)@.end, ..old(self)@ }),
    {
        self.start = self.end
    }

    /// Returns the selected string.
    pub fn str(&self) -> (s: String)
        requires
            self.wf(),
        ensures
            s@ == self@.selected(),
    {
        text_of(&self.source, self.start, self.end)
    }

    /// Returns the line number of the selection's end position.
    pub fn line(&self) -> (l: u32)
        ensures
            l == self@.line,
    {
        self.line
    }

    /// Whether the selection's end is the end of the text.
    pub fn eof(&self) -> (r: bool)
        requires
            self.wf(),
        ensures
            r == (self@.end == self@.source.len()),
    {
        self.end >= self.source.len()
    }
}

} // verus!
