//! The parsing steps that every updater is put together from. Each takes the cursor to
//! read at and gives a [`ParseResult`]; what it gives is stated over the cursor's view.

use crate::cursor::{outcome, Cursor, CursorView, Failure, FailureView, Outcome, ParseResult};
use crate::text::{lemma_run_length_bounds, same_text, CharClass};
use vstd::prelude::*;
use vstd::string::*;

verus! {

/// The message of a step that wanted `text` and did not find it.
pub open spec fn expected(text: Seq<char>) -> Seq<char> {
    "expected "@ + text
}

/// The failure of a step that wanted `text` at `input`.
pub open spec fn expected_at(text: Seq<char>, input: CursorView) -> FailureView {
    FailureView { position: input.position, message: expected(text), hint: None }
}

/// What [`literal`] gives: `text` is consumed where the input starts with it, letter for
/// letter; elsewhere the step fails where it stood.
pub open spec fn literal_outcome(text: Seq<char>, input: CursorView) -> Outcome<()> {
    if input.starts_with(text) {
        Ok((input.advance(text.len()), ()))
    } else {
        Err(expected_at(text, input))
    }
}

/// What [`tag`] gives: as [`literal`], with `value` for what was read.
pub open spec fn tag_outcome<T>(value: T, text: Seq<char>, input: CursorView) -> Outcome<T> {
    if input.starts_with(text) {
        Ok((input.advance(text.len()), value))
    } else {
        Err(expected_at(text, input))
    }
}

/// The failure `failure` with `hint` put where it has none.
pub open spec fn hinted(failure: FailureView, hint: Option<Seq<char>>) -> FailureView {
    if failure.hint is Some {
        failure
    } else {
        FailureView { hint, ..failure }
    }
}

/// What a hint stands for.
pub open spec fn hint_view(hint: Option<String>) -> Option<Seq<char>> {
    match hint {
        Some(text) => Some(text@),
        None => None,
    }
}

/// What [`with_hint`] gives from what its parser gives: a failure without a hint gets
/// `hint`, everything else passes through.
pub open spec fn hint_outcome<T>(inner: Outcome<T>, hint: Option<Seq<char>>) -> Outcome<T> {
    match inner {
        Ok(found) => Ok(found),
        Err(failure) => Err(hinted(failure, hint)),
    }
}

/// What [`fmap`] gives from what its parser gives: `f` of what was read; a failure
/// passes through.
pub open spec fn map_outcome<A, B>(inner: Outcome<A>, f: spec_fn(A) -> B) -> Outcome<B> {
    match inner {
        Ok((behind, value)) => Ok((behind, f(value))),
        Err(failure) => Err(failure),
    }
}

/// What [`tagged`] gives where its parser gives `inner(from)` at `from`.
pub open spec fn tagged_outcome<T>(
    text: Seq<char>,
    inner: spec_fn(CursorView) -> Outcome<T>,
    input: CursorView,
) -> Outcome<T> {
    match literal_outcome(text, input) {
        Ok((behind, _)) => inner(behind.skip_spaces()),
        Err(failure) => Err(failure),
    }
}

/// Whether an alternative that started at `start` and gave `first` has decided the
/// matter: it succeeded, or it failed after it had consumed input.
pub open spec fn settled<T>(start: nat, first: Outcome<T>) -> bool {
    match first {
        Ok(_) => true,
        Err(failure) => failure.position != start,
    }
}

/// The failure that stands for two alternatives that both failed at `start`: it names
/// what either wanted, and keeps the first hint there is.
pub open spec fn neither(start: nat, first: FailureView, second: FailureView) -> FailureView {
    FailureView {
        position: start,
        message: first.message + " or "@ + second.message,
        hint: if first.hint is Some {
            first.hint
        } else {
            second.hint
        },
    }
}

/// What [`or`] gives from what its alternatives give at `start`. The second alternative
/// counts only where the first has not settled the matter.
pub open spec fn either<T>(start: nat, first: Outcome<T>, second: Outcome<T>) -> Outcome<T> {
    match first {
        Ok(_) => first,
        Err(a) => if a.position != start {
            first
        } else {
            match second {
                Ok(_) => second,
                Err(b) => if b.position != start {
                    second
                } else {
                    Err(neither(start, a, b))
                },
            }
        },
    }
}

/// Consumes `text` where the input starts with it.
pub fn literal<'a>(text: &str, input: Cursor<'a>) -> (result: ParseResult<'a, ()>)
    ensures
        outcome(result) == literal_outcome(text@, input@),
{
    if input.starts_with(text) {
        Ok((input.advance(text.unicode_len()), ()))
    } else {
        Err(Failure::at(input.position(), expected_text(text)))
    }
}

/// The message that names `text` as what was wanted.
fn expected_text(text: &str) -> (message: String)
    ensures
        message@ == expected(text@),
{
    let mut message = String::from_str("expected ");
    message.append(text);
    message
}

/// Consumes `text` where the input starts with it, and gives `value`.
pub fn tag<'a, T>(value: T, text: &str, input: Cursor<'a>) -> (result: ParseResult<'a, T>)
    ensures
        outcome(result) == tag_outcome(value, text@, input@),
{
    if input.starts_with(text) {
        Ok((input.advance(text.unicode_len()), value))
    } else {
        Err(Failure::at(input.position(), expected_text(text)))
    }
}

/// Consumes `text`, skips the separators behind it and runs `parser` there. Where the
/// input does not start with `text` the parser is not run.
pub fn tagged<'a, T, P>(text: &str, parser: P, input: Cursor<'a>) -> (result: ParseResult<
    'a,
    T,
>) where P: FnOnce(Cursor<'a>) -> ParseResult<'a, T>
    requires
        forall|from: Cursor<'a>|
            from@ == input@.advance(text@.len()).skip_spaces() ==> #[trigger] call_requires(
                parser,
                (from,),
            ),
    ensures
        match literal_outcome(text@, input@) {
            Ok((behind, _)) => exists|from: Cursor<'a>|
                from@ == behind.skip_spaces() && #[trigger] call_ensures(parser, (from,), result),
            Err(failure) => outcome(result) == Err::<(CursorView, T), _>(failure),
        },
{
    match literal(text, input) {
        Ok((behind, _)) => behind.bind_space(true, parser),
        Err(failure) => Err(failure),
    }
}

/// Runs `parser` and hands what it read to `f`. A failure passes through as it is.
pub fn fmap<'a, A, B, F, P>(f: F, parser: P, input: Cursor<'a>) -> (result: ParseResult<
    'a,
    B,
>) where F: FnOnce(A) -> B, P: FnOnce(Cursor<'a>) -> ParseResult<'a, A>
    requires
        call_requires(parser, (input,)),
        forall|behind: Cursor<'a>, value: A|
            call_ensures(parser, (input,), Ok((behind, value))) ==> call_requires(f, (value,)),
    ensures
        exists|inner: ParseResult<'a, A>| #[trigger]
            call_ensures(parser, (input,), inner) && match inner {
                Ok((behind, value)) => result matches Ok((cursor, mapped)) && cursor == behind
                    && call_ensures(f, (value,), mapped),
                Err(failure) => result == Err::<(Cursor<'a>, B), _>(failure),
            },
{
    match parser(input) {
        Ok((behind, value)) => Ok((behind, f(value))),
        Err(failure) => Err(failure),
    }
}

/// Runs `parser`. Where it fails without a hint, `hint` is asked for one, and only
/// then.
pub fn with_hint<'a, T, H, P>(hint: H, parser: P, input: Cursor<'a>) -> (result: ParseResult<
    'a,
    T,
>) where H: FnOnce() -> Option<String>, P: FnOnce(Cursor<'a>) -> ParseResult<'a, T>
    requires
        call_requires(parser, (input,)),
        call_requires(hint, ()),
    ensures
        exists|inner: ParseResult<'a, T>| #[trigger]
            call_ensures(parser, (input,), inner) && match inner {
                Ok(_) => result == inner,
                Err(failure) => if failure.hint is Some {
                    result == inner
                } else {
                    exists|text: Option<String>| #[trigger]
                        call_ensures(hint, (), text) && result == Err::<(Cursor<'a>, T), _>(
                            Failure { hint: text, ..failure },
                        )
                },
            },
{
    match parser(input) {
        Ok(found) => Ok(found),
        Err(failure) => {
            if failure.hint.is_some() {
                Err(failure)
            } else {
                let text = hint();
                Err(Failure { position: failure.position, message: failure.message, hint: text })
            }
        },
    }
}

/// The failure that stands for two alternatives that both failed where they started.
fn join_failures(start: usize, first: Failure, second: Failure) -> (failure: Failure)
    ensures
        failure@ == neither(start as nat, first@, second@),
{
    let mut message = first.message;
    message.append(" or ");
    message.append(second.message.as_str());
    let hint = if first.hint.is_some() {
        first.hint
    } else {
        second.hint
    };
    Failure { position: start, message, hint }
}

/// Tries `first`, and where that fails without having consumed input, `second` from
/// the same cursor. Where both fail so, the failure names what either wanted.
pub fn or<'a, T, P, Q>(first: P, second: Q, input: Cursor<'a>) -> (result: ParseResult<
    'a,
    T,
>) where P: FnOnce(Cursor<'a>) -> ParseResult<'a, T>, Q: FnOnce(Cursor<'a>) -> ParseResult<'a, T>
    requires
        call_requires(first, (input,)),
        call_requires(second, (input,)),
    ensures
        exists|a: ParseResult<'a, T>| #[trigger]
            call_ensures(first, (input,), a) && if settled(input@.position, outcome(a)) {
                result == a
            } else {
                exists|b: ParseResult<'a, T>| #[trigger]
                    call_ensures(second, (input,), b) && outcome(result) == either(
                        input@.position,
                        outcome(a),
                        outcome(b),
                    )
            },
{
    let start = input.position();
    match first(input) {
        Ok(found) => Ok(found),
        Err(a) => {
            if a.position != start {
                Err(a)
            } else {
                match second(input) {
                    Ok(found) => Ok(found),
                    Err(b) => {
                        if b.position != start {
                            Err(b)
                        } else {
                            Err(join_failures(start, a, b))
                        }
                    },
                }
            }
        },
    }
}

/// The display names of a table of keys, in the table's order.
pub open spec fn names<K>(table: Seq<(K, String)>) -> Seq<Seq<char>> {
    Seq::new(table.len(), |i: int| table[i].1@)
}

/// The place of the first of `names` that is `word`, or `names.len()` where none is.
pub open spec fn first_named(names: Seq<Seq<char>>, word: Seq<char>) -> nat
    decreases names.len(),
{
    if names.len() == 0 || names[0] == word {
        0
    } else {
        1 + first_named(names.skip(1), word)
    }
}

/// No name before the first match is the word, and the match is.
pub proof fn lemma_first_named_bounds(names: Seq<Seq<char>>, word: Seq<char>)
    ensures
        first_named(names, word) <= names.len(),
        forall|i: int| 0 <= i < first_named(names, word) ==> #[trigger] names[i] != word,
        first_named(names, word) < names.len() ==> names[first_named(names, word) as int] == word,
    decreases names.len(),
{
    if !(names.len() == 0 || names[0] == word) {
        let tail = names.skip(1);
        lemma_first_named_bounds(tail, word);
        assert forall|i: int| 0 <= i < first_named(names, word) implies #[trigger] names[i]
            != word by {
            if i > 0 {
                assert(names[i] == tail[i - 1]);
            }
        }
        if first_named(names, word) < names.len() {
            assert(names[first_named(names, word) as int] == tail[first_named(tail, word) as int]);
        }
    }
}

/// The only place that is the first match's: no name before `n` is the word, and the
/// one at `n` is, or `n` is past the last.
pub proof fn lemma_first_named_is(names: Seq<Seq<char>>, word: Seq<char>, n: nat)
    requires
        n <= names.len(),
        forall|i: int| 0 <= i < n ==> #[trigger] names[i] != word,
        n < names.len() ==> names[n as int] == word,
    ensures
        first_named(names, word) == n,
    decreases n,
{
    if n > 0 {
        let tail = names.skip(1);
        assert(names[0] != word);
        assert forall|i: int| 0 <= i < n - 1 implies #[trigger] tail[i] != word by {
            assert(tail[i] == names[i + 1]);
        }
        if n - 1 < tail.len() {
            assert(tail[n - 1] == names[n as int]);
        }
        lemma_first_named_is(tail, word, (n - 1) as nat);
    }
}

/// The names, each parted from the next by a comma and a blank.
pub open spec fn listed(names: Seq<Seq<char>>) -> Seq<char>
    decreases names.len(),
{
    if names.len() == 0 {
        Seq::empty()
    } else if names.len() == 1 {
        names[0]
    } else {
        listed(names.drop_last()) + ", "@ + names.last()
    }
}

/// How many names a message lists: all of them, but no more than `limit`.
pub open spec fn listed_count(count: nat, limit: nat) -> nat {
    if limit < count {
        limit
    } else {
        count
    }
}

/// The message of a lookup that found no key: it lists the first names of the table, up
/// to `limit` of them.
pub open spec fn candidates(names: Seq<Seq<char>>, limit: nat) -> Seq<char> {
    "expected one of: "@ + listed(names.take(listed_count(names.len(), limit) as int))
}

/// The keys of a table, in the table's order.
pub open spec fn keys<K>(table: Seq<(K, String)>) -> Seq<K> {
    Seq::new(table.len(), |i: int| table[i].0)
}

/// What [`lookup_key`] gives for a table with these keys and display names. The word at
/// the cursor is looked up among the names, letter for letter; the first entry that
/// bears it gives the key, and the word is consumed. Where no entry bears it the step
/// fails where it stood.
pub open spec fn lookup_outcome<K>(
    keys: Seq<K>,
    names: Seq<Seq<char>>,
    limit: nat,
    input: CursorView,
) -> Outcome<K> {
    let word = input.word();
    let found = first_named(names, word);
    if found < names.len() {
        Ok((input.advance(word.len()), keys[found as int]))
    } else {
        Err(FailureView { position: input.position, message: candidates(names, limit), hint: None })
    }
}

/// The message that lists the first names of `table`, up to `limit` of them.
fn candidates_text<K>(table: &Vec<(K, String)>, limit: usize) -> (message: String)
    ensures
        message@ == candidates(names(table@), limit as nat),
{
    let count = if limit < table.len() {
        limit
    } else {
        table.len()
    };
    let ghost all = names(table@);
    let mut message = String::from_str("expected one of: ");
    let mut i: usize = 0;
    assert(listed(all.take(0)) =~= Seq::<char>::empty());
    assert(message@ =~= "expected one of: "@ + listed(all.take(0)));
    while i < count
        invariant
            i <= count,
            count <= table.len(),
            all == names(table@),
            message@ == "expected one of: "@ + listed(all.take(i as int)),
        decreases count - i,
    {
        let ghost before = message@;
        if i > 0 {
            message.append(", ");
        }
        message.append(table[i].1.as_str());
        proof {
            let next = all.take(i + 1);
            assert(next.drop_last() =~= all.take(i as int));
            assert(next.last() == table@[i as int].1@);
            if i == 0 {
                assert(listed(next) == next[0]);
                assert(listed(all.take(0)) =~= Seq::<char>::empty());
                assert(message@ =~= "expected one of: "@ + listed(next));
            } else {
                assert(listed(next) == listed(all.take(i as int)) + ", "@ + next.last());
                assert(message@ =~= "expected one of: "@ + listed(next));
            }
        }
        i = i + 1;
    }
    message
}

/// Looks the word at the cursor up among the display names of `table` and gives the key
/// that bears it. A failure lists the names that would have been found, `limit` of them
/// at most.
pub fn lookup_key<'a, K: Copy>(table: &Vec<(K, String)>, limit: usize, input: Cursor<'a>) -> (result:
    ParseResult<'a, K>)
    ensures
        outcome(result) == lookup_outcome(keys(table@), names(table@), limit as nat, input@),
{
    let word = input.word();
    let length = input.run(CharClass::Word);
    proof {
        lemma_run_length_bounds(input@.rest, CharClass::Word);
    }
    let ghost all = names(table@);
    let mut i: usize = 0;
    while i < table.len()
        invariant
            i <= table.len(),
            all == names(table@),
            word@ == input@.word(),
            length == word@.len(),
            length <= input@.rest.len(),
            forall|j: int| 0 <= j < i ==> #[trigger] all[j] != word@,
        decreases table.len() - i,
    {
        if same_text(table[i].1.as_str(), word.as_str()) {
            proof {
                lemma_first_named_is(all, word@, i as nat);
            }
            return Ok((input.advance(length), table[i].0));
        }
        i = i + 1;
    }
    proof {
        lemma_first_named_is(all, word@, i as nat);
    }
    Err(Failure::at(input.position(), candidates_text(table, limit)))
}

} // verus!
