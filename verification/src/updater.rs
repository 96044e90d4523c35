//! The updater: how a value is entered by a command and changed by the delta that the
//! command gave.

use crate::combinators::{
    either, fmap, hint_outcome, hint_view, literal, literal_outcome, map_outcome, or, tag,
    tag_outcome, tagged, tagged_outcome, with_hint,
};
use crate::cursor::{outcome, Cursor, CursorView, Failure, FailureView, Outcome, ParseResult};
use crate::leaf::{Describe, Parser};
use crate::number::{number, number_outcome};
use crate::text::{decimal, decimal_text};
use vstd::array::spec_array_update;
use vstd::prelude::*;
use vstd::string::*;

verus! {

/// A value that a command can change.
///
/// `enter` reads the rest of a command against the value and gives the delta that the
/// command asks for: one change, at one place in the value. It does not touch the
/// value. `apply` makes the change, or rejects it and leaves the value as it was.
pub trait Updater: Sized {
    /// The delta: one change to one place in a value of this type.
    type Updater;

    /// What [`Updater::enter`] gives for this value, its label and the input. An
    /// implementation that is to be verified states it; until then nothing is known of
    /// it.
    open spec fn parsed(&self, entry: Seq<char>, input: CursorView) -> Outcome<Self::Updater> {
        vstd::pervasive::arbitrary()
    }

    /// What [`Updater::apply`] makes of this value: the changed value, or the message
    /// with which the change is rejected. An implementation that is to be verified states
    /// it; until then nothing is known of it.
    open spec fn applied(&self, updater: Self::Updater) -> Result<Self, Seq<char>> {
        vstd::pervasive::arbitrary()
    }

    /// Reads a delta for this value. A value with parts first consumes `entry`, its own
    /// label, then what selects the part, and hands the rest to the part.
    fn enter<'a>(&self, entry: &'static str, input: Cursor<'a>) -> (result: ParseResult<
        'a,
        Self::Updater,
    >)
        ensures
            outcome(result) == self.parsed(entry@, input@),
    ;

    /// Makes the change that `updater` describes. A rejected change leaves the value as
    /// it was.
    fn apply(&mut self, updater: Self::Updater) -> (result: Result<(), String>)
        ensures
            match old(self).applied(updater) {
                Ok(value) => result is Ok && *final(self) == value,
                Err(message) => result is Err && result->Err_0@ == message && *final(self) == *old(
                    self,
                ),
            },
    ;
}

/// The hint that shows the current value.
pub open spec fn current(shown: Seq<char>) -> Seq<char> {
    "cur: "@ + shown
}

/// The hint that shows `value`.
fn current_text<T: Describe>(value: &T) -> (hint: Option<String>)
    ensures
        hint_view(hint) == Some(current(value.shown())),
{
    let mut text = String::from_str("cur: ");
    text.append(value.describe().as_str());
    Some(text)
}

/// A leaf is replaced as a whole: its delta is the new value. The label plays no part.
impl<T: Parser + Describe> Updater for T {
    type Updater = T;

    open spec fn parsed(&self, entry: Seq<char>, input: CursorView) -> Outcome<T> {
        hint_outcome(T::read(input), Some(current(self.shown())))
    }

    open spec fn applied(&self, updater: T) -> Result<T, Seq<char>> {
        Ok(updater)
    }

    fn enter<'a>(&self, entry: &'static str, input: Cursor<'a>) -> (result: ParseResult<'a, T>) {
        let hint = || -> (hint: Option<String>)
            ensures
                hint_view(hint) == Some(current(self.shown())),
            { current_text(self) };
        let parser = |from: Cursor<'a>| -> (found: ParseResult<'a, T>)
            ensures
                outcome(found) == T::read(from@),
            { T::parse(from) };
        with_hint(hint, parser, input)
    }

    fn apply(&mut self, updater: T) -> (result: Result<(), String>) {
        *self = updater;
        Ok(())
    }
}

/// What the `some` branch of an optional value's updater gives: the word `some`,
/// separators, and a value of the inner type.
pub open spec fn some_outcome<T: Parser>(input: CursorView) -> Outcome<Option<T>> {
    tagged_outcome(
        "some"@,
        |from: CursorView| map_outcome(T::read(from), |value: T| Some(value)),
        input,
    )
}

/// An optional value is switched on with `some` and a value, and off with `none`. Its
/// delta is the new optional value. The label plays no part.
impl<T: Parser + Clone + Describe> Updater for Option<T> {
    type Updater = Option<T>;

    open spec fn parsed(&self, entry: Seq<char>, input: CursorView) -> Outcome<Option<T>> {
        hint_outcome(
            either(
                input.position,
                some_outcome::<T>(input),
                tag_outcome(None::<T>, "none"@, input),
            ),
            Some(current(self.shown())),
        )
    }

    open spec fn applied(&self, updater: Option<T>) -> Result<Option<T>, Seq<char>> {
        Ok(updater)
    }

    fn enter<'a>(&self, entry: &'static str, input: Cursor<'a>) -> (result: ParseResult<
        'a,
        Option<T>,
    >) {
        let hint = || -> (hint: Option<String>)
            ensures
                hint_view(hint) == Some(current(self.shown())),
            { current_text(self) };
        let parser = |from: Cursor<'a>| -> (found: ParseResult<'a, Option<T>>)
            ensures
                outcome(found) == either(
                    from@.position,
                    some_outcome::<T>(from@),
                    tag_outcome(None::<T>, "none"@, from@),
                ),
            {
                let enabled = |from: Cursor<'a>| -> (found: ParseResult<'a, Option<T>>)
                    ensures
                        outcome(found) == some_outcome::<T>(from@),
                    {
                        let inner = |from: Cursor<'a>| -> (found: ParseResult<'a, Option<T>>)
                            ensures
                                outcome(found) == map_outcome(
                                    T::read(from@),
                                    |value: T| Some(value),
                                ),
                            {
                                let wrap = |value: T| -> (wrapped: Option<T>)
                                    ensures
                                        wrapped == Some(value),
                                    { Some(value) };
                                let leaf = |from: Cursor<'a>| -> (found: ParseResult<'a, T>)
                                    ensures
                                        outcome(found) == T::read(from@),
                                    { T::parse(from) };
                                fmap(wrap, leaf, from)
                            };
                        tagged("some", inner, from)
                    };
                let disabled = |from: Cursor<'a>| -> (found: ParseResult<'a, Option<T>>)
                    ensures
                        outcome(found) == tag_outcome(None::<T>, "none"@, from@),
                    { tag(None, "none", from) };
                or(enabled, disabled, from)
            };
        with_hint(hint, parser, input)
    }

    fn apply(&mut self, updater: Option<T>) -> (result: Result<(), String>) {
        *self = updater;
        Ok(())
    }
}

/// The hint of the step that reads an index into `n` elements.
pub open spec fn index_hint(n: nat) -> Seq<char> {
    if n == 0 {
        "arr index, none"@
    } else {
        "arr index, 0.."@ + decimal((n - 1) as nat)
    }
}

/// The message that rejects an index that `n` elements do not have.
pub open spec fn index_too_big(n: nat) -> Seq<char> {
    "Index too big, valid range 0.."@ + decimal(n)
}

/// What [`select_index`] gives behind a label. The separators are skipped and a number
/// is read, with the range as its hint. A number that is no index fails where the label
/// ended: nothing is read behind it.
pub open spec fn index_outcome(n: nat, after_label: CursorView) -> Outcome<usize> {
    match hint_outcome(
        number_outcome::<usize>(after_label.skip_spaces()),
        Some(index_hint(n)),
    ) {
        Ok((behind, index)) => if index < n {
            Ok((behind, index))
        } else {
            Err(
                FailureView {
                    position: after_label.position,
                    message: index_too_big(n),
                    hint: None,
                },
            )
        },
        Err(failure) => Err(failure),
    }
}

/// The hint of the step that reads an index into `n` elements.
fn index_hint_text(n: usize) -> (hint: Option<String>)
    ensures
        hint_view(hint) == Some(index_hint(n as nat)),
{
    if n == 0 {
        Some(String::from_str("arr index, none"))
    } else {
        let mut text = String::from_str("arr index, 0..");
        text.append(decimal_text((n - 1) as u64).as_str());
        Some(text)
    }
}

/// The message that rejects an index that `n` elements do not have.
fn index_too_big_text(n: usize) -> (message: String)
    ensures
        message@ == index_too_big(n as nat),
{
    let mut message = String::from_str("Index too big, valid range 0..");
    message.append(decimal_text(n as u64).as_str());
    message
}

/// Reads, behind a label, the index of one of `n` elements.
pub fn select_index<'a>(n: usize, after_label: Cursor<'a>) -> (result: ParseResult<'a, usize>)
    ensures
        outcome(result) == index_outcome(n as nat, after_label@),
{
    let hint = || -> (hint: Option<String>)
        ensures
            hint_view(hint) == Some(index_hint(n as nat)),
        { index_hint_text(n) };
    let parse_index = |from: Cursor<'a>| -> (found: ParseResult<'a, usize>)
        ensures
            outcome(found) == hint_outcome(
                number_outcome::<usize>(from@),
                Some(index_hint(n as nat)),
            ),
        {
            let leaf = |from: Cursor<'a>| -> (found: ParseResult<'a, usize>)
                ensures
                    outcome(found) == number_outcome::<usize>(from@),
                { number::<usize>(from) };
            with_hint(hint, leaf, from)
        };
    match after_label.bind_space(true, parse_index) {
        Ok((behind, index)) => {
            if index >= n {
                Err(Failure::at(after_label.position(), index_too_big_text(n)))
            } else {
                Ok((behind, index))
            }
        },
        Err(failure) => Err(failure),
    }
}

/// An array is entered by its label and the index of an element; the rest of the
/// command goes to that element, under the label `.`. Its delta is the index and the
/// element's delta.
impl<T: Updater, const N: usize> Updater for [T; N] {
    type Updater = (usize, T::Updater);

    open spec fn parsed(&self, entry: Seq<char>, input: CursorView) -> Outcome<
        (usize, T::Updater),
    > {
        match literal_outcome(entry, input) {
            Ok((after_label, _)) => match index_outcome(N as nat, after_label) {
                Ok((behind, index)) => match self@[index as int].parsed(
                    "."@,
                    behind.skip_spaces(),
                ) {
                    Ok((rest, delta)) => Ok((rest, (index, delta))),
                    Err(failure) => Err(failure),
                },
                Err(failure) => Err(failure),
            },
            Err(failure) => Err(failure),
        }
    }

    /// An index that the array does not have is rejected; elsewhere the element decides.
    open spec fn applied(&self, updater: (usize, T::Updater)) -> Result<Self, Seq<char>> {
        if updater.0 < N {
            match self@[updater.0 as int].applied(updater.1) {
                Ok(element) => Ok(spec_array_update(*self, updater.0 as int, element)),
                Err(message) => Err(message),
            }
        } else {
            Err(index_too_big(N as nat))
        }
    }

    fn enter<'a>(&self, entry: &'static str, input: Cursor<'a>) -> (result: ParseResult<
        'a,
        (usize, T::Updater),
    >) {
        let (after_label, _) = literal(entry, input)?;
        let (behind, index) = select_index(N, after_label)?;
        let element = |from: Cursor<'a>| -> (found: ParseResult<'a, T::Updater>)
            ensures
                outcome(found) == self@[index as int].parsed("."@, from@),
            { self[index].enter(".", from) };
        let (rest, delta) = behind.bind_space(true, element)?;
        Ok((rest, (index, delta)))
    }

    fn apply(&mut self, updater: (usize, T::Updater)) -> (result: Result<(), String>) {
        let (index, delta) = updater;
        if index < N {
            self[index].apply(delta)
        } else {
            Err(index_too_big_text(N))
        }
    }
}

/// Binds `item` and its label: the function that is returned reads a whole command
/// against `item`, as often as it is called, and gives the delta that the command asks
/// for. Applying the delta is left to the caller.
pub fn updater_for<'a, T>(item: &'a T, label: &'static str) -> (parse: impl for <'i>FnMut(
    &'i str,
) -> ParseResult<'i, T::Updater> + 'a) where T: Updater
    ensures
        forall|input: &str| call_requires(parse, (input,)),
        forall|input: &str, result: ParseResult<'_, T::Updater>|
            call_ensures(parse, (input,), result) ==> outcome(result) == item.parsed(
                label@,
                CursorView::start(input@),
            ),
{
    move |input: &str| -> (result: ParseResult<'_, T::Updater>)
        ensures
            outcome(result) == item.parsed(label@, CursorView::start(input@)),
        { item.enter(label, Cursor::new(input)) }
}

} // verus!
