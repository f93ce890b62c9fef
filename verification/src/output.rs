//! The two sinks of a program's text, output and diagnostics, and how the
//! actions of the evaluator read on them.

use crate::interpreter::Action;
use crate::machine::ActionView;
use crate::text::push_char;
use vstd::prelude::*;
use vstd::string::StringExecFns;

verus! {

/// Where a program's text goes: an output sink and a diagnostic sink.
/// The two may be one.
pub trait Output {
    /// What was written to the output sink.
    spec fn out_text(&self) -> Seq<char>;

    /// What was written to the diagnostic sink.
    spec fn err_text(&self) -> Seq<char>;

    /// Whether the two sinks are one: what is written to either is
    /// written to both.
    spec fn is_single(&self) -> bool;

    /// Writes `text` to the output sink. The diagnostic sink takes it
    /// too if the sinks are one, and else stays as it is.
    fn out(&mut self, text: &str)
        ensures
            final(self).is_single() == old(self).is_single(),
            final(self).out_text() == old(self).out_text() + text@,
            final(self).err_text() == if old(self).is_single() {
                old(self).err_text() + text@
            } else {
                old(self).err_text()
            },
    ;

    /// Writes `text` to the diagnostic sink. The output sink takes it too
    /// if the sinks are one, and else stays as it is.
    fn err(&mut self, text: &str)
        ensures
            final(self).is_single() == old(self).is_single(),
            final(self).err_text() == old(self).err_text() + text@,
            final(self).out_text() == if old(self).is_single() {
                old(self).out_text() + text@
            } else {
                old(self).out_text()
            },
    ;
}

/// Whether `after` is `before` with `text` written to the output sink.
pub open spec fn wrote_out<O: Output + ?Sized>(before: &O, after: &O, text: Seq<char>) -> bool {
    &&& after.is_single() == before.is_single()
    &&& after.out_text() == before.out_text() + text
    &&& after.err_text() == if before.is_single() {
        before.err_text() + text
    } else {
        before.err_text()
    }
}

/// Whether `after` is `before` with `text` written to the diagnostic sink.
pub open spec fn wrote_err<O: Output + ?Sized>(before: &O, after: &O, text: Seq<char>) -> bool {
    &&& after.is_single() == before.is_single()
    &&& after.err_text() == before.err_text() + text
    &&& after.out_text() == if before.is_single() {
        before.out_text() + text
    } else {
        before.out_text()
    }
}

/// One sink for both output and diagnostics, in the order in which they
/// were written.
pub struct SingleOutput(pub String);

impl SingleOutput {
    pub fn new(out: String) -> (sink: SingleOutput)
        ensures
            sink.0 == out,
    {
        SingleOutput(out)
    }
}

impl Output for SingleOutput {
    open spec fn out_text(&self) -> Seq<char> {
        self.0@
    }

    open spec fn err_text(&self) -> Seq<char> {
        self.0@
    }

    open spec fn is_single(&self) -> bool {
        true
    }

    fn out(&mut self, text: &str) {
        self.0.append(text);
    }

    fn err(&mut self, text: &str) {
        self.0.append(text);
    }
}

/// Two sinks: output in the first, diagnostics in the second.
pub struct SplitOutput(pub String, pub String);

impl SplitOutput {
    pub fn new(out: String, err: String) -> (sink: SplitOutput)
        ensures
            sink.0 == out,
            sink.1 == err,
    {
        SplitOutput(out, err)
    }
}

impl Output for SplitOutput {
    open spec fn out_text(&self) -> Seq<char> {
        self.0@
    }

    open spec fn err_text(&self) -> Seq<char> {
        self.1@
    }

    open spec fn is_single(&self) -> bool {
        false
    }

    fn out(&mut self, text: &str)
        ensures
            final(self).1 == old(self).1,
    {
        self.0.append(text);
    }

    fn err(&mut self, text: &str)
        ensures
            final(self).0 == old(self).0,
    {
        self.1.append(text);
    }
}

/// What surrounds a run: the source text and the sinks.
pub struct Ctx<'a, Out> {
    pub src: &'a str,
    pub out: Out,
}

/// The line that an action writes to the output sink, if it writes one.
/// `number` is the decimal form of the double that the action prints, if
/// it prints one.
pub open spec fn printed(action: ActionView, number: Seq<char>) -> Option<Seq<char>> {
    match action {
        ActionView::Print(text) => Some(text.push('\n')),
        ActionView::PrintNumber(_) => Some(number.push('\n')),
        _ => None,
    }
}

/// The line that an action writes to the diagnostic sink, if it writes
/// one: `[Line N]: MESSAGE`.
pub open spec fn reported(action: ActionView) -> Option<Seq<char>> {
    match action {
        ActionView::Fail(error) => Some(error.message().push('\n')),
        _ => None,
    }
}

impl<'a, Out: Output> Ctx<'a, Out> {
    /// Writes what `action` says to the sinks: a printed value and a line
    /// feed to the output sink, an error's message and a line feed to the
    /// diagnostic sink. Nothing else is written: of two sinks the other
    /// one stays as it is, and an action that says neither leaves both as
    /// they are.
    ///
    /// `number` is the decimal form of the double that the action prints,
    /// if it prints one.
    pub fn perform(&mut self, action: &Action, number: &str)
        ensures
            final(self).src == old(self).src,
            match printed(action@, number@) {
                Some(line) => wrote_out(&old(self).out, &final(self).out, line),
                None => match reported(action@) {
                    Some(line) => wrote_err(&old(self).out, &final(self).out, line),
                    None => final(self).out == old(self).out,
                },
            },
    {
        match action {
            Action::Print(text) => {
                let mut line = text.clone();
                push_char(&mut line, '\n');
                self.out.out(line.as_str());
            },
            Action::PrintNumber(_) => {
                let mut line = number.to_owned();
                push_char(&mut line, '\n');
                self.out.out(line.as_str());
            },
            Action::Fail(error) => {
                let mut line = error.message();
                push_char(&mut line, '\n');
                self.out.err(line.as_str());
            },
            _ => {},
        }
    }
}

} // verus!
