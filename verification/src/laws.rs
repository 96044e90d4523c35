//! What holds of entering and applying together, for every value and every command.

use crate::combinators::{
    candidates, expected, expected_at, first_named, hinted, lemma_first_named_bounds,
    lemma_first_named_is, listed_count, literal_outcome, lookup_outcome, neither,
};
use crate::cursor::{CursorView, FailureView};
use crate::keyed::{all_keys, all_names, entries, with_entry, ByteMap, MAX_CANDIDATES};
use crate::leaf::{Describe, Parser};
use crate::number::{number_outcome, numeral, numeral_digits, numeral_value, sign_length, Number};
use crate::text::{
    decimal, digit_value, is_space, lemma_decimal_reads_back, lemma_run_of_prefix, CharClass,
};
use crate::updater::{current, index_hint, index_outcome, index_too_big, Updater};
use vstd::prelude::*;

verus! {

/// A leaf that a command was read for becomes what the command said: entering gives the
/// value that the leaf's parser read, and applying stores that value.
pub proof fn lemma_leaf_round_trip<T: Parser + Describe>(
    value: T,
    entry: Seq<char>,
    input: CursorView,
)
    ensures
        match value.parsed(entry, input) {
            Ok((rest, delta)) => T::read(input) == Ok::<_, FailureView>((rest, delta))
                && value.applied(delta) == Ok::<T, Seq<char>>(delta),
            Err(failure) => T::read(input) is Err,
        },
{
}

/// An optional value that a command was read for becomes what the command said.
pub proof fn lemma_option_round_trip<T: Parser + Clone + Describe>(
    value: Option<T>,
    entry: Seq<char>,
    input: CursorView,
)
    ensures
        value.parsed(entry, input) matches Ok((rest, delta)) ==> value.applied(delta) == Ok::<
            Option<T>,
            Seq<char>,
        >(delta),
{
}

/// A command that was read for an array reaches one element and no other. The command
/// started with the label and with an index that the array has; the element's delta is
/// what the element at that index read from the rest of the command; applying changes
/// that element as the element's own updater says and leaves every other element as it
/// was, and a change that the element rejects is rejected with the element's message.
pub proof fn lemma_array_round_trip<T: Updater, const N: usize>(
    value: [T; N],
    entry: Seq<char>,
    input: CursorView,
)
    ensures
        value.parsed(entry, input) matches Ok((rest, (index, delta))) ==> {
            &&& index < N
            &&& literal_outcome(entry, input) matches Ok((after_label, _))
            &&& index_outcome(N as nat, after_label) matches Ok((behind, found))
            &&& found == index
            &&& value@[index as int].parsed("."@, behind.skip_spaces()) == Ok::<_, FailureView>(
                (rest, delta),
            )
            &&& match value@[index as int].applied(delta) {
                Ok(element) => value.applied((index, delta)) matches Ok(after) && after@
                    == value@.update(index as int, element),
                Err(message) => value.applied((index, delta)) == Err::<[T; N], _>(message),
            }
        },
{
    broadcast use vstd::array::group_array_axioms;

}

/// A command that was read for a map reaches one entry and no other. The command
/// started with the label and with the display name of a key; the entry's delta is what
/// the entry under that key read from the rest of the command; applying gives the map
/// with the entry's new value stored under that key.
pub proof fn lemma_map_round_trip(value: ByteMap, entry: Seq<char>, input: CursorView)
    ensures
        value.parsed(entry, input) matches Ok((rest, (key, delta))) ==> {
            &&& literal_outcome(entry, input) matches Ok((after_label, _))
            &&& lookup_outcome(
                all_keys(),
                all_names(),
                MAX_CANDIDATES as nat,
                after_label.skip_spaces(),
            ) matches Ok((behind, found))
            &&& found == key
            &&& entries(value)[key].parsed("."@, behind.skip_spaces()) == Ok::<_, FailureView>(
                (rest, delta),
            )
            &&& value.applied((key, delta)) == Ok::<ByteMap, Seq<char>>(
                with_entry(value, key, delta),
            )
        },
{
}

/// Whether every character of `text` is a separator.
pub open spec fn blank(text: Seq<char>) -> bool {
    forall|i: int| 0 <= i < text.len() ==> is_space(#[trigger] text[i])
}

/// The cursor behind `text`, for a cursor whose rest starts with it.
pub open spec fn behind(input: CursorView, text: Seq<char>) -> CursorView {
    input.advance(text.len())
}

/// Separators in front of something else are skipped, all of them and nothing more.
pub proof fn lemma_skip_blanks(input: CursorView, blanks: Seq<char>, tail: Seq<char>)
    requires
        blank(blanks),
        input.rest == blanks + tail,
        tail.len() > 0 ==> !is_space(tail[0]),
    ensures
        input.skip_spaces() == behind(input, blanks),
        input.skip_spaces().rest == tail,
{
    lemma_run_of_prefix(blanks, tail, CharClass::Space);
}

/// The numeral of a value of `T` is read back as that value: a cursor at the numeral,
/// with no digit behind it, gives the value and stands behind the numeral.
pub proof fn lemma_number_command<T: Number>(value: T, input: CursorView, tail: Seq<char>)
    requires
        input.rest == numeral(value.value()) + tail,
        tail.len() > 0 ==> digit_value(tail[0]) is None,
    ensures
        number_outcome::<T>(input) == Ok::<_, FailureView>(
            (behind(input, numeral(value.value())), value),
        ),
        behind(input, numeral(value.value())).rest == tail,
{
    T::lemma_range();
    let v = value.value();
    let text = numeral(v);
    if v < 0 {
        let digits = decimal((-v) as nat);
        lemma_decimal_reads_back((-v) as nat);
        assert(input.rest[0] == '-');
        assert(sign_length::<T>(input.rest) == 1);
        assert(input.rest.skip(1) =~= digits + tail);
        lemma_run_of_prefix(digits, tail, CharClass::Digit);
        assert(numeral_digits::<T>(input.rest) == digits);
        assert(text.len() == 1 + digits.len());
        assert(input.rest.skip(text.len() as int) =~= tail);
    } else {
        let digits = decimal(v as nat);
        lemma_decimal_reads_back(v as nat);
        assert(input.rest[0] == digits[0]);
        assert(digit_value(digits[0]) is Some);
        assert(sign_length::<T>(input.rest) == 0);
        assert(input.rest.skip(0) =~= digits + tail);
        lemma_run_of_prefix(digits, tail, CharClass::Digit);
        assert(numeral_digits::<T>(input.rest) == digits);
        assert(input.rest.skip(text.len() as int) =~= tail);
    }
}

/// Every index that an array has is read as that index: behind the label, separators
/// and the numeral of an index below `n`, with no digit behind it, give the index.
pub proof fn lemma_index_command(
    n: usize,
    index: usize,
    after_label: CursorView,
    blanks: Seq<char>,
    tail: Seq<char>,
)
    requires
        index < n,
        blank(blanks),
        after_label.rest == blanks + decimal(index as nat) + tail,
        tail.len() > 0 ==> digit_value(tail[0]) is None,
    ensures
        index_outcome(n as nat, after_label) == Ok::<_, FailureView>(
            (behind(after_label, blanks + decimal(index as nat)), index),
        ),
        behind(after_label, blanks + decimal(index as nat)).rest == tail,
{
    let digits = decimal(index as nat);
    lemma_decimal_reads_back(index as nat);
    assert(after_label.rest =~= blanks + (digits + tail));
    assert((digits + tail)[0] == digits[0]);
    lemma_skip_blanks(after_label, blanks, digits + tail);
    let from = after_label.skip_spaces();
    assert(numeral(index.value()) == digits);
    lemma_number_command::<usize>(index, from, tail);
    assert(from.advance(digits.len()) =~= after_label.advance((blanks + digits).len())) by {
        assert(after_label.rest.skip(blanks.len() as int).skip(digits.len() as int)
            =~= after_label.rest.skip((blanks + digits).len() as int));
    }
}

/// An index is read exactly where a numeral stands behind the label and the separators
/// and writes a number below `n`. A numeral that writes any other `usize` is rejected
/// where the label ended, with the range in the message; anything that is no numeral of
/// a `usize` is rejected where it stands, with the range in the hint.
pub proof fn lemma_index_bounds(n: usize, after_label: CursorView)
    ensures
        ({
            let from = after_label.skip_spaces();
            let numeral = numeral_digits::<usize>(from.rest).len() > 0 && numeral_value::<usize>(
                from.rest,
            ) <= usize::MAX;
            match index_outcome(n as nat, after_label) {
                Ok((_, index)) => numeral && index == numeral_value::<usize>(from.rest) && index
                    < n,
                Err(failure) => if numeral {
                    &&& numeral_value::<usize>(from.rest) >= n
                    &&& failure.position == after_label.position
                    &&& failure.message == index_too_big(n as nat)
                } else {
                    &&& failure.position == from.position
                    &&& failure.hint == Some(index_hint(n as nat))
                },
            }
        }),
{
}

/// The command that names an element of an array reaches that element: behind the
/// label, separators, the numeral of an index that the array has and more separators,
/// the rest of the command is read by the element at that index, and what the element
/// reads is the array's delta for that index.
pub proof fn lemma_array_command<T: Updater, const N: usize>(
    value: [T; N],
    entry: Seq<char>,
    index: usize,
    input: CursorView,
    blanks: Seq<char>,
    gap: Seq<char>,
    tail: Seq<char>,
)
    requires
        index < N,
        blank(blanks),
        blank(gap),
        input.rest == entry + blanks + decimal(index as nat) + gap + tail,
        tail.len() > 0 ==> !is_space(tail[0]),
        gap.len() == 0 && tail.len() > 0 ==> digit_value(tail[0]) is None,
    ensures
        ({
            let from = behind(input, entry + blanks + decimal(index as nat) + gap);
            &&& from.rest == tail
            &&& value.parsed(entry, input) == match value@[index as int].parsed("."@, from) {
                Ok((rest, delta)) => Ok::<_, FailureView>((rest, (index, delta))),
                Err(failure) => Err(failure),
            }
        }),
{
    let digits = decimal(index as nat);
    let selector = blanks + digits;
    assert(input.rest =~= entry + (selector + (gap + tail)));
    assert(input.rest.take(entry.len() as int) =~= entry);
    let after_label = input.advance(entry.len());
    assert(after_label.rest =~= blanks + digits + (gap + tail));
    if gap.len() > 0 {
        assert((gap + tail)[0] == gap[0]);
    } else if tail.len() > 0 {
        assert((gap + tail)[0] == tail[0]);
    }
    lemma_index_command(N, index, after_label, blanks, gap + tail);
    let at_gap = behind(after_label, selector);
    lemma_skip_blanks(at_gap, gap, tail);
    let from = behind(input, entry + blanks + digits + gap);
    assert(at_gap.skip_spaces() =~= from) by {
        assert(input.rest.skip(entry.len() as int).skip(selector.len() as int).skip(
            gap.len() as int,
        ) =~= input.rest.skip((entry + blanks + digits + gap).len() as int));
    }
}

/// An array of numbers, entered by the command that is made of its label, an index that
/// it has and the numeral of a new number, and changed by the delta that this gave, holds
/// the new number at that index and what it held before everywhere else.
pub proof fn lemma_array_of_numbers_round_trip<T: Number, const N: usize>(
    value: [T; N],
    entry: Seq<char>,
    index: usize,
    new: T,
    input: CursorView,
    blanks: Seq<char>,
    gap: Seq<char>,
)
    requires
        index < N,
        blank(blanks),
        blank(gap),
        gap.len() > 0,
        input.rest == entry + blanks + decimal(index as nat) + gap + numeral(new.value()),
    ensures
        value.parsed(entry, input) matches Ok((rest, delta)) && {
            &&& rest.rest.len() == 0
            &&& delta == (index, new)
            &&& value.applied(delta) matches Ok(after)
            &&& after@ == value@.update(index as int, new)
        },
{
    broadcast use vstd::array::group_array_axioms;

    let text = numeral(new.value());
    assert(text.len() > 0 && !is_space(text[0])) by {
        if new.value() < 0 {
            assert(text[0] == '-');
        } else {
            lemma_decimal_reads_back(new.value() as nat);
            assert(digit_value(text[0]) is Some);
        }
    }
    lemma_array_command(value, entry, index, input, blanks, gap, text);
    let from = behind(input, entry + blanks + decimal(index as nat) + gap);
    assert(from.rest =~= text + Seq::<char>::empty());
    lemma_number_command::<T>(new, from, Seq::empty());
}

/// A map, entered by the command that is made of its label, the numeral of a key and
/// the numeral of a new number, gives the delta that stores the new number under that
/// key.
pub proof fn lemma_map_of_numbers_round_trip(
    value: ByteMap,
    entry: Seq<char>,
    key: u8,
    new: u64,
    input: CursorView,
    blanks: Seq<char>,
    gap: Seq<char>,
)
    requires
        blank(blanks),
        blank(gap),
        gap.len() > 0,
        input.rest == entry + blanks + decimal(key as nat) + gap + decimal(new as nat),
    ensures
        value.parsed(entry, input) matches Ok((rest, delta)) && {
            &&& rest.rest.len() == 0
            &&& delta == (key, new)
            &&& value.applied(delta) == Ok::<ByteMap, Seq<char>>(with_entry(value, key, new))
        },
{
    let text = decimal(new as nat);
    lemma_decimal_reads_back(new as nat);
    assert(digit_value(text[0]) is Some);
    lemma_map_command(value, entry, key, input, blanks, gap, text);
    let from = behind(input, entry + blanks + decimal(key as nat) + gap);
    assert(from.rest =~= text + Seq::<char>::empty());
    assert(numeral(new.value()) == text);
    lemma_number_command::<u64>(new, from, Seq::empty());
}

/// Decimal numerals tell numbers apart.
pub proof fn lemma_decimal_distinct(a: nat, b: nat)
    requires
        a != b,
    ensures
        decimal(a) != decimal(b),
{
    lemma_decimal_reads_back(a);
    lemma_decimal_reads_back(b);
}

/// The command that names a key of a map reaches the entry under that key: behind the
/// label, separators, the numeral of the key and at least one separator, the rest of the
/// command is read by the entry, and what the entry reads is the map's delta for that
/// key.
pub proof fn lemma_map_command(
    value: ByteMap,
    entry: Seq<char>,
    key: u8,
    input: CursorView,
    blanks: Seq<char>,
    gap: Seq<char>,
    tail: Seq<char>,
)
    requires
        blank(blanks),
        blank(gap),
        input.rest == entry + blanks + decimal(key as nat) + gap + tail,
        tail.len() > 0 ==> !is_space(tail[0]) && gap.len() > 0,
    ensures
        ({
            let from = behind(input, entry + blanks + decimal(key as nat) + gap);
            &&& from.rest == tail
            &&& value.parsed(entry, input) == match entries(value)[key].parsed("."@, from) {
                Ok((rest, delta)) => Ok::<_, FailureView>((rest, (key, delta))),
                Err(failure) => Err(failure),
            }
        }),
{
    let name = decimal(key as nat);
    lemma_decimal_reads_back(key as nat);
    assert(input.rest =~= entry + (blanks + name + (gap + tail)));
    assert(input.rest.take(entry.len() as int) =~= entry);
    let after_label = input.advance(entry.len());
    assert(after_label.rest =~= blanks + (name + (gap + tail)));
    assert((name + (gap + tail))[0] == name[0]);
    lemma_skip_blanks(after_label, blanks, name + (gap + tail));
    let at_name = after_label.skip_spaces();
    assert(at_name.rest == name + (gap + tail));
    if gap.len() > 0 {
        assert((gap + tail)[0] == gap[0]);
    }
    assert forall|i: int| 0 <= i < name.len() implies CharClass::Word.contains(
        #[trigger] name[i],
    ) by {
        assert(digit_value(name[i]) is Some);
    }
    lemma_run_of_prefix(name, gap + tail, CharClass::Word);
    assert(at_name.word() == name);
    assert forall|j: int| 0 <= j < key implies #[trigger] all_names()[j] != name by {
        lemma_decimal_distinct(j as nat, key as nat);
    }
    assert(all_names()[key as int] == name);
    lemma_first_named_is(all_names(), name, key as nat);
    assert(all_keys()[key as int] == key);
    let at_gap = at_name.advance(name.len());
    assert(at_gap.rest == gap + tail);
    lemma_skip_blanks(at_gap, gap, tail);
    let from = behind(input, entry + blanks + name + gap);
    assert(at_gap.skip_spaces() =~= from) by {
        assert(input.rest.skip(entry.len() as int).skip(blanks.len() as int).skip(
            name.len() as int,
        ).skip(gap.len() as int) =~= input.rest.skip((entry + blanks + name + gap).len() as int));
    }
}

/// A lookup finds the first entry whose display name is the word at the cursor, gives
/// its key and consumes the word. It fails exactly where no entry bears the word, and
/// its message then lists the first names of the table, `limit` of them at most.
pub proof fn lemma_lookup<K>(keys: Seq<K>, names: Seq<Seq<char>>, limit: nat, input: CursorView)
    requires
        keys.len() == names.len(),
    ensures
        match lookup_outcome(keys, names, limit, input) {
            Ok((rest, key)) => exists|i: int|
                {
                    &&& 0 <= i < names.len()
                    &&& #[trigger] names[i] == input.word()
                    &&& key == keys[i]
                    &&& rest == behind(input, input.word())
                    &&& forall|j: int| 0 <= j < i ==> #[trigger] names[j] != input.word()
                },
            Err(failure) => {
                &&& forall|i: int| 0 <= i < names.len() ==> #[trigger] names[i] != input.word()
                &&& failure.position == input.position
                &&& failure.message == candidates(names, limit)
                &&& failure.hint is None
            },
        },
        listed_count(names.len(), limit) <= limit,
{
    lemma_first_named_bounds(names, input.word());
    let found = first_named(names, input.word());
    if found < names.len() {
        assert(names[found as int] == input.word());
    }
}

/// An optional value is switched by two words and by nothing else. Where the input
/// starts with `none`, the delta switches the value off. Where it starts with `some`,
/// what stands behind the separators is read as the inner type, and the delta switches
/// the value on with what was read; a value that cannot be read fails as the inner type
/// says (an inner type that reports its failure back at the place of `some` has it
/// joined with the failure to find `none`). Anything else fails where it stands, names
/// both words and shows the current value.
pub proof fn lemma_option_toggle<T: Parser + Clone + Describe>(
    value: Option<T>,
    entry: Seq<char>,
    input: CursorView,
)
    ensures
        input.starts_with("none"@) ==> value.parsed(entry, input) == Ok::<_, FailureView>(
            (behind(input, "none"@), None::<T>),
        ),
        input.starts_with("some"@) ==> value.parsed(entry, input) == match T::read(
            behind(input, "some"@).skip_spaces(),
        ) {
            Ok((rest, inner)) => Ok::<_, FailureView>((rest, Some(inner))),
            Err(failure) => Err(
                hinted(
                    if failure.position != input.position {
                        failure
                    } else {
                        neither(input.position, failure, expected_at("none"@, input))
                    },
                    Some(current(value.shown())),
                ),
            ),
        },
        !input.starts_with("none"@) && !input.starts_with("some"@) ==> value.parsed(entry, input)
            == Err::<(CursorView, Option<T>), _>(
            FailureView {
                position: input.position,
                message: expected("some"@) + " or "@ + expected("none"@),
                hint: Some(current(value.shown())),
            },
        ),
        value.applied(None) == Ok::<Option<T>, Seq<char>>(None),
        forall|inner: T| #[trigger] value.applied(Some(inner)) == Ok::<Option<T>, Seq<char>>(Some(inner)),
{
    reveal_strlit("none");
    reveal_strlit("some");
    if input.starts_with("none"@) {
        assert(input.rest.take(4)[0] == 'n');
        if input.starts_with("some"@) {
            assert(input.rest.take(4)[0] == 's');
        }
    }
}

} // verus!
