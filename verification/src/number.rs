//! Numerals: the numbers that a command can hold, and the step that reads one.

use crate::cursor::{outcome, Cursor, CursorView, Failure, FailureView, Outcome, ParseResult};
use crate::text::{
    decimal, decimal_text, digits_value, lemma_digits_value_grows, lemma_run_length_bounds, run,
    run_length, to_digit, CharClass,
};
use vstd::prelude::*;
use vstd::string::*;

verus! {

/// The integer that a sign and a magnitude stand for.
pub open spec fn signed_value(negative: bool, magnitude: nat) -> int {
    if negative {
        -(magnitude as int)
    } else {
        magnitude as int
    }
}

/// An integer type that [`number`] can read.
pub trait Number: Sized + Copy {
    /// The integer that `self` holds.
    spec fn value(self) -> int;

    /// Whether a numeral of this type may start with a minus sign.
    spec fn signed() -> bool;

    /// The least integer that the type holds.
    spec fn lowest() -> int;

    /// The greatest integer that the type holds.
    spec fn highest() -> int;

    /// The value of the type that holds `v`.
    spec fn of(v: int) -> Self;

    /// The type holds the integers from `lowest` to `highest`, each once, none that a
    /// sign and a `u64` could not give, and none below zero unless it takes a sign.
    proof fn lemma_range()
        ensures
            -(u64::MAX as int) <= Self::lowest() <= 0,
            0 <= Self::highest() <= u64::MAX,
            !Self::signed() ==> Self::lowest() == 0,
            forall|v: int|
                Self::lowest() <= v <= Self::highest() ==> (#[trigger] Self::of(v)).value() == v,
            forall|x: Self|
                Self::lowest() <= #[trigger] x.value() <= Self::highest() && Self::of(x.value())
                    == x,
    ;

    /// Whether a numeral of this type may start with a minus sign.
    fn accepts_sign() -> (signed: bool)
        ensures
            signed == Self::signed(),
    ;

    /// The value with the given sign and magnitude, where the type holds it.
    fn from_parts(negative: bool, magnitude: u64) -> (number: Option<Self>)
        ensures
            number == if Self::lowest() <= signed_value(negative, magnitude as nat)
                <= Self::highest() {
                Some(Self::of(signed_value(negative, magnitude as nat)))
            } else {
                None
            },
    ;

    /// The sign and the magnitude of `self`.
    fn into_parts(self) -> (parts: (bool, u64))
        ensures
            signed_value(parts.0, parts.1 as nat) == self.value(),
            parts.0 ==> parts.1 > 0,
    ;
}

impl Number for u8 {
    open spec fn value(self) -> int {
        self as int
    }

    open spec fn signed() -> bool {
        false
    }

    open spec fn lowest() -> int {
        0
    }

    open spec fn highest() -> int {
        u8::MAX as int
    }

    open spec fn of(v: int) -> u8 {
        v as u8
    }

    proof fn lemma_range() {
    }

    fn accepts_sign() -> (signed: bool) {
        false
    }

    fn from_parts(negative: bool, magnitude: u64) -> (number: Option<u8>) {
        if negative && magnitude != 0 {
            None
        } else if magnitude <= u8::MAX as u64 {
            Some(magnitude as u8)
        } else {
            None
        }
    }

    fn into_parts(self) -> (parts: (bool, u64)) {
        (false, self as u64)
    }
}

impl Number for u16 {
    open spec fn value(self) -> int {
        self as int
    }

    open spec fn signed() -> bool {
        false
    }

    open spec fn lowest() -> int {
        0
    }

    open spec fn highest() -> int {
        u16::MAX as int
    }

    open spec fn of(v: int) -> u16 {
        v as u16
    }

    proof fn lemma_range() {
    }

    fn accepts_sign() -> (signed: bool) {
        false
    }

    fn from_parts(negative: bool, magnitude: u64) -> (number: Option<u16>) {
        if negative && magnitude != 0 {
            None
        } else if magnitude <= u16::MAX as u64 {
            Some(magnitude as u16)
        } else {
            None
        }
    }

    fn into_parts(self) -> (parts: (bool, u64)) {
        (false, self as u64)
    }
}

impl Number for u32 {
    open spec fn value(self) -> int {
        self as int
    }

    open spec fn signed() -> bool {
        false
    }

    open spec fn lowest() -> int {
        0
    }

    open spec fn highest() -> int {
        u32::MAX as int
    }

    open spec fn of(v: int) -> u32 {
        v as u32
    }

    proof fn lemma_range() {
    }

    fn accepts_sign() -> (signed: bool) {
        false
    }

    fn from_parts(negative: bool, magnitude: u64) -> (number: Option<u32>) {
        if negative && magnitude != 0 {
            None
        } else if magnitude <= u32::MAX as u64 {
            Some(magnitude as u32)
        } else {
            None
        }
    }

    fn into_parts(self) -> (parts: (bool, u64)) {
        (false, self as u64)
    }
}

impl Number for u64 {
    open spec fn value(self) -> int {
        self as int
    }

    open spec fn signed() -> bool {
        false
    }

    open spec fn lowest() -> int {
        0
    }

    open spec fn highest() -> int {
        u64::MAX as int
    }

    open spec fn of(v: int) -> u64 {
        v as u64
    }

    proof fn lemma_range() {
    }

    fn accepts_sign() -> (signed: bool) {
        false
    }

    fn from_parts(negative: bool, magnitude: u64) -> (number: Option<u64>) {
        if negative && magnitude != 0 {
            None
        } else if magnitude <= u64::MAX as u64 {
            Some(magnitude as u64)
        } else {
            None
        }
    }

    fn into_parts(self) -> (parts: (bool, u64)) {
        (false, self as u64)
    }
}

impl Number for usize {
    open spec fn value(self) -> int {
        self as int
    }

    open spec fn signed() -> bool {
        false
    }

    open spec fn lowest() -> int {
        0
    }

    open spec fn highest() -> int {
        usize::MAX as int
    }

    open spec fn of(v: int) -> usize {
        v as usize
    }

    proof fn lemma_range() {
    }

    fn accepts_sign() -> (signed: bool) {
        false
    }

    fn from_parts(negative: bool, magnitude: u64) -> (number: Option<usize>) {
        if negative && magnitude != 0 {
            None
        } else if magnitude <= usize::MAX as u64 {
            Some(magnitude as usize)
        } else {
            None
        }
    }

    fn into_parts(self) -> (parts: (bool, u64)) {
        (false, self as u64)
    }
}

impl Number for i8 {
    open spec fn value(self) -> int {
        self as int
    }

    open spec fn signed() -> bool {
        true
    }

    open spec fn lowest() -> int {
        i8::MIN as int
    }

    open spec fn highest() -> int {
        i8::MAX as int
    }

    open spec fn of(v: int) -> i8 {
        v as i8
    }

    proof fn lemma_range() {
    }

    fn accepts_sign() -> (signed: bool) {
        true
    }

    fn from_parts(negative: bool, magnitude: u64) -> (number: Option<i8>) {
        if !negative {
            if magnitude <= i8::MAX as u64 {
                Some(magnitude as i8)
            } else {
                None
            }
        } else if magnitude <= i8::MAX as u64 {
            Some(-(magnitude as i8))
        } else if magnitude == i8::MAX as u64 + 1 {
            Some(i8::MIN)
        } else {
            None
        }
    }

    fn into_parts(self) -> (parts: (bool, u64)) {
        if self >= 0 {
            (false, self as u64)
        } else if self == i8::MIN {
            (true, i8::MAX as u64 + 1)
        } else {
            (true, (-self) as u64)
        }
    }
}

impl Number for i16 {
    open spec fn value(self) -> int {
        self as int
    }

    open spec fn signed() -> bool {
        true
    }

    open spec fn lowest() -> int {
        i16::MIN as int
    }

    open spec fn highest() -> int {
        i16::MAX as int
    }

    open spec fn of(v: int) -> i16 {
        v as i16
    }

    proof fn lemma_range() {
    }

    fn accepts_sign() -> (signed: bool) {
        true
    }

    fn from_parts(negative: bool, magnitude: u64) -> (number: Option<i16>) {
        if !negative {
            if magnitude <= i16::MAX as u64 {
                Some(magnitude as i16)
            } else {
                None
            }
        } else if magnitude <= i16::MAX as u64 {
            Some(-(magnitude as i16))
        } else if magnitude == i16::MAX as u64 + 1 {
            Some(i16::MIN)
        } else {
            None
        }
    }

    fn into_parts(self) -> (parts: (bool, u64)) {
        if self >= 0 {
            (false, self as u64)
        } else if self == i16::MIN {
            (true, i16::MAX as u64 + 1)
        } else {
            (true, (-self) as u64)
        }
    }
}

impl Number for i32 {
    open spec fn value(self) -> int {
        self as int
    }

    open spec fn signed() -> bool {
        true
    }

    open spec fn lowest() -> int {
        i32::MIN as int
    }

    open spec fn highest() -> int {
        i32::MAX as int
    }

    open spec fn of(v: int) -> i32 {
        v as i32
    }

    proof fn lemma_range() {
    }

    fn accepts_sign() -> (signed: bool) {
        true
    }

    fn from_parts(negative: bool, magnitude: u64) -> (number: Option<i32>) {
        if !negative {
            if magnitude <= i32::MAX as u64 {
                Some(magnitude as i32)
            } else {
                None
            }
        } else if magnitude <= i32::MAX as u64 {
            Some(-(magnitude as i32))
        } else if magnitude == i32::MAX as u64 + 1 {
            Some(i32::MIN)
        } else {
            None
        }
    }

    fn into_parts(self) -> (parts: (bool, u64)) {
        if self >= 0 {
            (false, self as u64)
        } else if self == i32::MIN {
            (true, i32::MAX as u64 + 1)
        } else {
            (true, (-self) as u64)
        }
    }
}

impl Number for i64 {
    open spec fn value(self) -> int {
        self as int
    }

    open spec fn signed() -> bool {
        true
    }

    open spec fn lowest() -> int {
        i64::MIN as int
    }

    open spec fn highest() -> int {
        i64::MAX as int
    }

    open spec fn of(v: int) -> i64 {
        v as i64
    }

    proof fn lemma_range() {
    }

    fn accepts_sign() -> (signed: bool) {
        true
    }

    fn from_parts(negative: bool, magnitude: u64) -> (number: Option<i64>) {
        if !negative {
            if magnitude <= i64::MAX as u64 {
                Some(magnitude as i64)
            } else {
                None
            }
        } else if magnitude <= i64::MAX as u64 {
            Some(-(magnitude as i64))
        } else if magnitude == i64::MAX as u64 + 1 {
            Some(i64::MIN)
        } else {
            None
        }
    }

    fn into_parts(self) -> (parts: (bool, u64)) {
        if self >= 0 {
            (false, self as u64)
        } else if self == i64::MIN {
            (true, i64::MAX as u64 + 1)
        } else {
            (true, (-self) as u64)
        }
    }
}

impl Number for isize {
    open spec fn value(self) -> int {
        self as int
    }

    open spec fn signed() -> bool {
        true
    }

    open spec fn lowest() -> int {
        isize::MIN as int
    }

    open spec fn highest() -> int {
        isize::MAX as int
    }

    open spec fn of(v: int) -> isize {
        v as isize
    }

    proof fn lemma_range() {
    }

    fn accepts_sign() -> (signed: bool) {
        true
    }

    fn from_parts(negative: bool, magnitude: u64) -> (number: Option<isize>) {
        if !negative {
            if magnitude <= isize::MAX as u64 {
                Some(magnitude as isize)
            } else {
                None
            }
        } else if magnitude <= isize::MAX as u64 {
            Some(-(magnitude as isize))
        } else if magnitude == isize::MAX as u64 + 1 {
            Some(isize::MIN)
        } else {
            None
        }
    }

    fn into_parts(self) -> (parts: (bool, u64)) {
        if self >= 0 {
            (false, self as u64)
        } else if self == isize::MIN {
            (true, isize::MAX as u64 + 1)
        } else {
            (true, (-self) as u64)
        }
    }
}

/// The numeral of `v`: a minus sign where `v` is negative, then the decimal digits.
pub open spec fn numeral(v: int) -> Seq<char> {
    if v < 0 {
        seq!['-'] + decimal((-v) as nat)
    } else {
        decimal(v as nat)
    }
}

/// Writes the numeral of `number`.
pub fn numeral_text<T: Number>(number: T) -> (text: String)
    ensures
        text@ == numeral(number.value()),
{
    let (negative, magnitude) = number.into_parts();
    if negative {
        let mut text = String::from_str("-");
        proof {
            reveal_strlit("-");
            assert("-"@ =~= seq!['-']);
        }
        text.append(decimal_text(magnitude).as_str());
        text
    } else {
        decimal_text(magnitude)
    }
}

/// The message of a step that wanted a number and found `word`.
pub open spec fn not_a_number(word: Seq<char>) -> Seq<char> {
    "not a number: "@ + word
}

/// How many characters the sign of a numeral takes at the start of `rest`: one where
/// the type takes a sign and a minus stands there, none elsewhere.
pub open spec fn sign_length<T: Number>(rest: Seq<char>) -> nat {
    if T::signed() && rest.len() > 0 && rest[0] == '-' {
        1
    } else {
        0
    }
}

/// The digits of the numeral at the start of `rest`: all that stand behind the sign.
pub open spec fn numeral_digits<T: Number>(rest: Seq<char>) -> Seq<char> {
    run(rest.skip(sign_length::<T>(rest) as int), CharClass::Digit)
}

/// The integer that the numeral at the start of `rest` writes.
pub open spec fn numeral_value<T: Number>(rest: Seq<char>) -> int {
    signed_value(sign_length::<T>(rest) == 1, digits_value(numeral_digits::<T>(rest)))
}

/// What [`number`] gives. The numeral at the cursor is the sign, where the type takes
/// one, and every digit behind it. It is read where it has a digit and the type holds
/// what it writes; elsewhere the step fails where it stood and reports the word it
/// found.
pub open spec fn number_outcome<T: Number>(input: CursorView) -> Outcome<T> {
    let digits = numeral_digits::<T>(input.rest);
    let v = numeral_value::<T>(input.rest);
    if digits.len() > 0 && T::lowest() <= v <= T::highest() {
        Ok((input.advance(sign_length::<T>(input.rest) + digits.len()), T::of(v)))
    } else {
        Err(
            FailureView {
                position: input.position,
                message: not_a_number(input.word()),
                hint: None,
            },
        )
    }
}

/// The failure of [`number`] at `input`.
fn number_failure(input: Cursor<'_>) -> (failure: Failure)
    ensures
        failure@ == (FailureView {
            position: input@.position,
            message: not_a_number(input@.word()),
            hint: None,
        }),
{
    let mut message = String::from_str("not a number: ");
    message.append(input.word().as_str());
    Failure::at(input.position(), message)
}

/// The number that the first `count` characters at `from` write, all of them digits;
/// `None` where it is more than a `u64` holds.
fn magnitude(from: Cursor<'_>, count: usize) -> (found: Option<u64>)
    requires
        count == run_length(from@.rest, CharClass::Digit),
    ensures
        found == if digits_value(run(from@.rest, CharClass::Digit)) <= u64::MAX {
            Some(digits_value(run(from@.rest, CharClass::Digit)) as u64)
        } else {
            None
        },
{
    let ghost digits = run(from@.rest, CharClass::Digit);
    proof {
        lemma_run_length_bounds(from@.rest, CharClass::Digit);
    }
    let mut total: u64 = 0;
    let mut i: usize = 0;
    while i < count
        invariant
            i <= count,
            count == digits.len(),
            count <= from@.rest.len(),
            digits == run(from@.rest, CharClass::Digit),
            digits == from@.rest.take(count as int),
            forall|j: int| 0 <= j < count ==> CharClass::Digit.contains(#[trigger] from@.rest[j]),
            total == digits_value(digits.take(i as int)),
        decreases count - i,
    {
        let d: u64 = match from.peek(i) {
            Some(c) => match to_digit(c) {
                Some(d) => d as u64,
                None => 0,
            },
            None => 0,
        };
        proof {
            let next = digits.take(i + 1);
            assert(next.drop_last() =~= digits.take(i as int));
            assert(next.last() == from@.rest[i as int]);
            assert(digits_value(next) == total * 10 + d);
            lemma_digits_value_grows(digits, i + 1);
        }
        if total > (u64::MAX - d) / 10 {
            assert(total * 10 + d > u64::MAX);
            assert(digits_value(digits.take(i + 1)) <= digits_value(digits));
            return None;
        }
        total = total * 10 + d;
        i = i + 1;
    }
    assert(digits.take(count as int) =~= digits);
    Some(total)
}

/// Reads the numeral at the cursor as a `T`.
pub fn number<'a, T: Number>(input: Cursor<'a>) -> (result: ParseResult<'a, T>)
    ensures
        outcome(result) == number_outcome::<T>(input@),
{
    proof {
        T::lemma_range();
    }
    let negative = T::accepts_sign() && match input.peek(0) {
        Some(c) => c == '-',
        None => false,
    };
    let from = if negative {
        input.advance(1)
    } else {
        input
    };
    assert(from@.rest =~= input@.rest.skip(sign_length::<T>(input@.rest) as int));
    let count = from.run(CharClass::Digit);
    proof {
        lemma_run_length_bounds(from@.rest, CharClass::Digit);
    }
    if count == 0 {
        return Err(number_failure(input));
    }
    match magnitude(from, count) {
        Some(size) => match T::from_parts(negative, size) {
            Some(value) => {
                let behind = from.advance(count);
                assert(behind@.rest =~= input@.rest.skip(
                    (sign_length::<T>(input@.rest) + count) as int,
                ));
                Ok((behind, value))
            },
            None => Err(number_failure(input)),
        },
        None => Err(number_failure(input)),
    }
}

} // verus!
