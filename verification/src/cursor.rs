//! The cursor that parsers read from, and what a parsing step gives back.

use crate::text::{lemma_run_length_bounds, lemma_run_length_is, run_length, CharClass};
use vstd::prelude::*;
use vstd::string::*;

verus! {

/// What a cursor stands for: the text that is still to be read, and how many characters
/// of the command were read before it.
pub struct CursorView {
    pub rest: Seq<char>,
    pub position: nat,
}

impl CursorView {
    /// The cursor at the start of a command.
    pub open spec fn start(text: Seq<char>) -> CursorView {
        CursorView { rest: text, position: 0 }
    }

    /// The cursor `count` characters further on.
    pub open spec fn advance(self, count: nat) -> CursorView {
        CursorView { rest: self.rest.skip(count as int), position: self.position + count }
    }

    /// The cursor behind the separators that `rest` starts with.
    pub open spec fn skip_spaces(self) -> CursorView {
        self.advance(run_length(self.rest, CharClass::Space))
    }

    /// Whether `rest` starts with `text`.
    pub open spec fn starts_with(self, text: Seq<char>) -> bool {
        text.len() <= self.rest.len() && self.rest.take(text.len() as int) == text
    }

    /// The word at the cursor: everything up to the next separator.
    pub open spec fn word(self) -> Seq<char> {
        self.rest.take(run_length(self.rest, CharClass::Word) as int)
    }
}

/// A place in a command. Reading never changes a cursor: a step that consumes text
/// hands out a new one.
#[derive(Clone, Copy, Debug, PartialEq, Eq)]
pub struct Cursor<'a> {
    text: &'a str,
    length: usize,
    position: usize,
}

impl<'a> View for Cursor<'a> {
    type V = CursorView;

    closed spec fn view(&self) -> CursorView {
        CursorView { rest: self.text@.skip(self.position as int), position: self.position as nat }
    }
}

/// What is known of a failed step: where the cursor stood when matching stopped, what
/// was wrong, and where there is any, a hint at what would have been right.
pub struct FailureView {
    pub position: nat,
    pub message: Seq<char>,
    pub hint: Option<Seq<char>>,
}

/// A failed parsing step.
#[derive(Clone, Debug, PartialEq, Eq)]
pub struct Failure {
    pub position: usize,
    pub message: String,
    pub hint: Option<String>,
}

impl View for Failure {
    type V = FailureView;

    open spec fn view(&self) -> FailureView {
        FailureView {
            position: self.position as nat,
            message: self.message@,
            hint: match self.hint {
                Some(text) => Some(text@),
                None => None,
            },
        }
    }
}

impl Failure {
    /// A failure at `position`, without a hint.
    pub fn at(position: usize, message: String) -> (failure: Failure)
        ensures
            failure@ == (FailureView { position: position as nat, message: message@, hint: None }),
    {
        Failure { position, message, hint: None }
    }
}

/// What a parsing step gives: the cursor behind what it consumed together with what it
/// read, or a failure.
pub type ParseResult<'a, T> = Result<(Cursor<'a>, T), Failure>;

/// What a parsing step's result stands for.
pub type Outcome<T> = Result<(CursorView, T), FailureView>;

/// The outcome that `result` stands for.
pub open spec fn outcome<T>(result: ParseResult<'_, T>) -> Outcome<T> {
    match result {
        Ok((cursor, value)) => Ok((cursor@, value)),
        Err(failure) => Err(failure@),
    }
}

impl<'a> Cursor<'a> {
    #[verifier::type_invariant]
    spec fn in_bounds(self) -> bool {
        self.length == self.text@.len() && self.position <= self.length
    }

    /// The cursor at the start of the command `text`.
    pub fn new(text: &'a str) -> (cursor: Cursor<'a>)
        ensures
            cursor@ == CursorView::start(text@),
    {
        let length = text.unicode_len();
        assert(text@.skip(0) =~= text@);
        Cursor { text, length, position: 0 }
    }

    /// How many characters of the command lie before the cursor.
    pub fn position(&self) -> (position: usize)
        ensures
            position == self@.position,
    {
        self.position
    }

    /// How many characters are left to read.
    pub fn remaining(&self) -> (count: usize)
        ensures
            count == self@.rest.len(),
    {
        proof {
            use_type_invariant(self);
        }
        self.length - self.position
    }

    /// The text that is left to read.
    pub fn rest(&self) -> (rest: &'a str)
        ensures
            rest@ == self@.rest,
    {
        proof {
            use_type_invariant(self);
        }
        let rest = self.text.substring_char(self.position, self.length);
        assert(rest@ =~= self@.rest);
        rest
    }

    /// The character `offset` places behind the cursor.
    pub fn peek(&self, offset: usize) -> (c: Option<char>)
        ensures
            c == if offset < self@.rest.len() {
                Some(self@.rest[offset as int])
            } else {
                None::<char>
            },
    {
        proof {
            use_type_invariant(self);
        }
        if offset < self.length - self.position {
            Some(self.text.get_char(self.position + offset))
        } else {
            None
        }
    }

    /// The cursor `count` characters further on, or at the end of the text where fewer
    /// are left.
    pub fn advance(self, count: usize) -> (cursor: Cursor<'a>)
        ensures
            cursor@ == self@.advance(
                if count <= self@.rest.len() {
                    count as nat
                } else {
                    self@.rest.len()
                },
            ),
    {
        proof {
            use_type_invariant(self);
        }
        let step = if count <= self.length - self.position {
            count
        } else {
            self.length - self.position
        };
        let cursor = Cursor {
            text: self.text,
            length: self.length,
            position: self.position + step,
        };
        assert(cursor@.rest =~= self@.rest.skip(step as int));
        cursor
    }

    /// How many characters of `class` stand at the cursor.
    pub fn run(&self, class: CharClass) -> (count: usize)
        ensures
            count == run_length(self@.rest, class),
    {
        proof {
            use_type_invariant(self);
        }
        let left = self.length - self.position;
        let mut count: usize = 0;
        while count < left && class.holds(self.text.get_char(self.position + count))
            invariant
                self.length == self.text@.len(),
                self.position <= self.length,
                left == self.length - self.position,
                count <= left,
                forall|i: int| 0 <= i < count ==> class.contains(#[trigger] self@.rest[i]),
            decreases left - count,
        {
            count = count + 1;
        }
        proof {
            lemma_run_length_is(self@.rest, class, count as nat);
        }
        count
    }

    /// Whether the text at the cursor starts with `text`.
    pub fn starts_with(&self, text: &str) -> (found: bool)
        ensures
            found == self@.starts_with(text@),
    {
        proof {
            use_type_invariant(self);
        }
        let n = text.unicode_len();
        if n > self.length - self.position {
            return false;
        }
        let mut i: usize = 0;
        while i < n
            invariant
                self.length == self.text@.len(),
                self.position <= self.length,
                n == text@.len(),
                n <= self.length - self.position,
                i <= n,
                forall|j: int| 0 <= j < i ==> self@.rest[j] == text@[j],
            decreases n - i,
        {
            if self.text.get_char(self.position + i) != text.get_char(i) {
                assert(self@.rest.take(n as int)[i as int] != text@[i as int]);
                return false;
            }
            i = i + 1;
        }
        assert(self@.rest.take(n as int) =~= text@);
        true
    }

    /// The word at the cursor, copied out.
    pub fn word(&self) -> (word: String)
        ensures
            word@ == self@.word(),
    {
        proof {
            use_type_invariant(self);
        }
        let count = self.run(CharClass::Word);
        proof {
            lemma_run_length_bounds(self@.rest, CharClass::Word);
        }
        let word = self.text.substring_char(self.position, self.position + count);
        assert(word@ =~= self@.word());
        String::from_str(word)
    }

    /// The cursor behind the separators that stand at this one.
    pub fn skip_spaces(self) -> (cursor: Cursor<'a>)
        ensures
            cursor@ == self@.skip_spaces(),
    {
        let count = self.run(CharClass::Space);
        proof {
            lemma_run_length_bounds(self@.rest, CharClass::Space);
        }
        self.advance(count)
    }

    /// Runs `parser` at this cursor, or, where `skip` is set, behind the separators that
    /// stand here. The parser's result is handed on as it is.
    pub fn bind_space<T, P>(self, skip: bool, parser: P) -> (result: ParseResult<'a, T>) where
        P: FnOnce(Cursor<'a>) -> ParseResult<'a, T>,

        requires
            forall|from: Cursor<'a>|
                from@ == (if skip {
                    self@.skip_spaces()
                } else {
                    self@
                }) ==> #[trigger] call_requires(parser, (from,)),
        ensures
            exists|from: Cursor<'a>|
                from@ == (if skip {
                    self@.skip_spaces()
                } else {
                    self@
                }) && #[trigger] call_ensures(parser, (from,), result),
    {
        let from = if skip {
            self.skip_spaces()
        } else {
            self
        };
        parser(from)
    }
}

} // verus!
