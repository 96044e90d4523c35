//! Leaves: the values that a command replaces as a whole. A leaf type says how it is
//! read from a command and how its current value is shown in a hint.

use crate::combinators::{either, or, tag, tag_outcome};
use crate::cursor::{outcome, Cursor, CursorView, Outcome, ParseResult};
use crate::number::{number, number_outcome, numeral, numeral_text, Number};
use vstd::prelude::*;
use vstd::string::*;

verus! {

/// A value that can be read from a command.
pub trait Parser: Sized {
    /// What [`Parser::parse`] gives at `input`. An implementation that is to be verified
    /// states it; until then nothing is known of it.
    open spec fn read(input: CursorView) -> Outcome<Self> {
        vstd::pervasive::arbitrary()
    }

    /// Reads a value at `input`.
    fn parse<'a>(input: Cursor<'a>) -> (result: ParseResult<'a, Self>)
        ensures
            outcome(result) == Self::read(input@),
    ;
}

/// A value that can be shown in a hint, as `{:?}` shows it.
pub trait Describe {
    /// The text that shows `self`. An implementation that is to be verified states it;
    /// until then nothing is known of it.
    open spec fn shown(&self) -> Seq<char> {
        vstd::pervasive::arbitrary()
    }

    /// The text that shows `self`.
    fn describe(&self) -> (text: String)
        ensures
            text@ == self.shown(),
    ;
}

impl<T: Number> Parser for T {
    open spec fn read(input: CursorView) -> Outcome<T> {
        number_outcome::<T>(input)
    }

    fn parse<'a>(input: Cursor<'a>) -> (result: ParseResult<'a, T>) {
        number(input)
    }
}

impl<T: Number> Describe for T {
    open spec fn shown(&self) -> Seq<char> {
        numeral(self.value())
    }

    fn describe(&self) -> (text: String) {
        numeral_text(*self)
    }
}

impl Parser for bool {
    /// `true` or `false`, letter for letter.
    open spec fn read(input: CursorView) -> Outcome<bool> {
        either(
            input.position,
            tag_outcome(true, "true"@, input),
            tag_outcome(false, "false"@, input),
        )
    }

    fn parse<'a>(input: Cursor<'a>) -> (result: ParseResult<'a, bool>) {
        let yes = |from: Cursor<'a>| -> (found: ParseResult<'a, bool>)
            ensures
                outcome(found) == tag_outcome(true, "true"@, from@),
            { tag(true, "true", from) };
        let no = |from: Cursor<'a>| -> (found: ParseResult<'a, bool>)
            ensures
                outcome(found) == tag_outcome(false, "false"@, from@),
            { tag(false, "false", from) };
        or(yes, no, input)
    }
}

impl Describe for bool {
    open spec fn shown(&self) -> Seq<char> {
        if *self {
            "true"@
        } else {
            "false"@
        }
    }

    fn describe(&self) -> (text: String) {
        if *self {
            String::from_str("true")
        } else {
            String::from_str("false")
        }
    }
}

impl<T: Describe> Describe for Option<T> {
    open spec fn shown(&self) -> Seq<char> {
        match self {
            Some(value) => "Some("@ + value.shown() + ")"@,
            None => "None"@,
        }
    }

    fn describe(&self) -> (text: String) {
        match self {
            Some(value) => {
                let mut text = String::from_str("Some(");
                text.append(value.describe().as_str());
                text.append(")");
                text
            },
            None => String::from_str("None"),
        }
    }
}

} // verus!
