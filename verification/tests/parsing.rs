use std::cell::Cell;
use updater::combinators::{fmap, literal, lookup_key, or, tag, tagged, with_hint};
use updater::number::{number, numeral_text};
use updater::text::{decimal_text, same_text, space, to_digit, CharClass};
use updater::{Cursor, Failure, ParseResult, Parser};

fn failure(position: usize, message: &str, hint: Option<&str>) -> Failure {
    Failure {
        position,
        message: message.to_owned(),
        hint: hint.map(|text| text.to_owned()),
    }
}

#[test]
fn cursor_starts_at_zero_and_moves_by_characters() {
    let start = Cursor::new("héllo wörld");
    assert_eq!(start.position(), 0);
    assert_eq!(start.remaining(), 11);
    assert_eq!(start.rest(), "héllo wörld");
    let moved = start.advance(6);
    assert_eq!(moved.position(), 6);
    assert_eq!(moved.rest(), "wörld");
    assert_eq!(moved.remaining(), 5);
    // the first cursor is untouched
    assert_eq!(start.position(), 0);
    assert_eq!(start.rest(), "héllo wörld");
}

#[test]
fn cursor_does_not_move_past_the_end() {
    let end = Cursor::new("abc").advance(10);
    assert_eq!(end.position(), 3);
    assert_eq!(end.rest(), "");
    assert_eq!(end.remaining(), 0);
    assert_eq!(end.peek(0), None);
}

#[test]
fn cursor_peeks_without_moving() {
    let cursor = Cursor::new("ab");
    assert_eq!(cursor.peek(0), Some('a'));
    assert_eq!(cursor.peek(1), Some('b'));
    assert_eq!(cursor.peek(2), None);
    assert_eq!(cursor.position(), 0);
}

#[test]
fn runs_are_counted_by_class() {
    let cursor = Cursor::new("  \t12a b");
    assert_eq!(cursor.run(CharClass::Space), 3);
    assert_eq!(cursor.run(CharClass::Digit), 0);
    let digits = cursor.advance(3);
    assert_eq!(digits.run(CharClass::Digit), 2);
    assert_eq!(digits.run(CharClass::Word), 3);
    assert_eq!(digits.word(), "12a");
    assert_eq!(Cursor::new("").run(CharClass::Word), 0);
    assert_eq!(Cursor::new("").word(), "");
}

#[test]
fn separators_are_blank_tab_and_line_ends() {
    assert!(space(' ') && space('\t') && space('\n') && space('\r'));
    assert!(!space('a') && !space('0') && !space('.'));
    assert!(CharClass::Space.holds(' '));
    assert!(CharClass::Word.holds('x') && !CharClass::Word.holds(' '));
    assert!(CharClass::Digit.holds('7') && !CharClass::Digit.holds('x'));
}

#[test]
fn digits_have_their_values() {
    assert_eq!(to_digit('0'), Some(0));
    assert_eq!(to_digit('5'), Some(5));
    assert_eq!(to_digit('9'), Some(9));
    assert_eq!(to_digit('a'), None);
    assert_eq!(to_digit('-'), None);
}

#[test]
fn skip_spaces_stops_at_the_first_other_character() {
    let cursor = Cursor::new(" \t\n x y").skip_spaces();
    assert_eq!(cursor.position(), 4);
    assert_eq!(cursor.rest(), "x y");
    let same = Cursor::new("x y").skip_spaces();
    assert_eq!(same.position(), 0);
    let all = Cursor::new("   ").skip_spaces();
    assert_eq!(all.position(), 3);
    assert_eq!(all.rest(), "");
}

#[test]
fn starts_with_compares_letter_for_letter() {
    let cursor = Cursor::new("Banana split");
    assert!(cursor.starts_with("Banana"));
    assert!(cursor.starts_with(""));
    assert!(!cursor.starts_with("banana"));
    assert!(!cursor.starts_with("Banana split!"));
    assert!(cursor.advance(7).starts_with("split"));
}

#[test]
fn same_text_is_equality() {
    assert!(same_text("abc", "abc"));
    assert!(same_text("", ""));
    assert!(!same_text("abc", "abd"));
    assert!(!same_text("abc", "ab"));
    assert!(!same_text("abc", "ABC"));
}

#[test]
fn decimal_text_writes_base_ten() {
    assert_eq!(decimal_text(0), "0");
    assert_eq!(decimal_text(7), "7");
    assert_eq!(decimal_text(10), "10");
    assert_eq!(decimal_text(1234567890), "1234567890");
    assert_eq!(decimal_text(u64::MAX), "18446744073709551615");
}

#[test]
fn numeral_text_is_what_debug_prints() {
    assert_eq!(numeral_text(0u8), format!("{:?}", 0u8));
    assert_eq!(numeral_text(255u8), "255");
    assert_eq!(numeral_text(-128i8), "-128");
    assert_eq!(numeral_text(i64::MIN), format!("{:?}", i64::MIN));
    assert_eq!(numeral_text(i64::MAX), format!("{:?}", i64::MAX));
    assert_eq!(numeral_text(-1isize), "-1");
    assert_eq!(numeral_text(usize::MAX), format!("{:?}", usize::MAX));
    assert_eq!(numeral_text(-32768i16), "-32768");
    assert_eq!(numeral_text(i32::MIN), "-2147483648");
    assert_eq!(numeral_text(65535u16), "65535");
    assert_eq!(numeral_text(u32::MAX), "4294967295");
}

#[test]
fn literal_consumes_an_exact_match() {
    let (rest, _) = literal("banana", Cursor::new("banana . shape 16")).unwrap();
    assert_eq!(rest.position(), 6);
    assert_eq!(rest.rest(), " . shape 16");
}

#[test]
fn literal_fails_where_it_stands_and_names_what_it_wanted() {
    let at = Cursor::new("xx Banana").advance(3);
    assert_eq!(
        literal("banana", at),
        Err(failure(3, "expected banana", None))
    );
    assert_eq!(
        literal("banana", Cursor::new("banan")),
        Err(failure(0, "expected banana", None))
    );
}

#[test]
fn tag_gives_its_constant() {
    let (rest, value) = tag(7u8, "seven", Cursor::new("seven!")).unwrap();
    assert_eq!(value, 7);
    assert_eq!(rest.rest(), "!");
    assert_eq!(
        tag(7u8, "seven", Cursor::new("eight")),
        Err(failure(0, "expected seven", None))
    );
}

#[test]
fn number_reads_the_whole_numeral() {
    let (rest, value) = number::<u32>(Cursor::new("16 rest")).unwrap();
    assert_eq!(value, 16);
    assert_eq!(rest.position(), 2);
    let (rest, value) = number::<u32>(Cursor::new("16abc")).unwrap();
    assert_eq!(value, 16);
    assert_eq!(rest.rest(), "abc");
    let (rest, value) = number::<u64>(Cursor::new("007")).unwrap();
    assert_eq!(value, 7);
    assert_eq!(rest.position(), 3);
}

#[test]
fn number_reads_the_limits_of_each_type() {
    assert_eq!(number::<u8>(Cursor::new("255")).unwrap().1, 255);
    assert_eq!(number::<u16>(Cursor::new("65535")).unwrap().1, 65535);
    assert_eq!(number::<u32>(Cursor::new("4294967295")).unwrap().1, u32::MAX);
    assert_eq!(
        number::<u64>(Cursor::new("18446744073709551615")).unwrap().1,
        u64::MAX
    );
    assert_eq!(
        number::<usize>(Cursor::new(&usize::MAX.to_string())).unwrap().1,
        usize::MAX
    );
    assert_eq!(number::<i8>(Cursor::new("-128")).unwrap().1, -128);
    assert_eq!(number::<i8>(Cursor::new("127")).unwrap().1, 127);
    assert_eq!(number::<i16>(Cursor::new("-32768")).unwrap().1, i16::MIN);
    assert_eq!(number::<i32>(Cursor::new("-2147483648")).unwrap().1, i32::MIN);
    assert_eq!(
        number::<i64>(Cursor::new("-9223372036854775808")).unwrap().1,
        i64::MIN
    );
    assert_eq!(
        number::<i64>(Cursor::new("9223372036854775807")).unwrap().1,
        i64::MAX
    );
    assert_eq!(
        number::<isize>(Cursor::new(&isize::MIN.to_string())).unwrap().1,
        isize::MIN
    );
    assert_eq!(number::<i32>(Cursor::new("-0")).unwrap().1, 0);
}

#[test]
fn number_rejects_what_the_type_does_not_hold() {
    assert_eq!(
        number::<u8>(Cursor::new("256")),
        Err(failure(0, "not a number: 256", None))
    );
    assert_eq!(
        number::<i8>(Cursor::new("-129 x")),
        Err(failure(0, "not a number: -129", None))
    );
    assert_eq!(
        number::<i8>(Cursor::new("128")),
        Err(failure(0, "not a number: 128", None))
    );
    assert_eq!(
        number::<u64>(Cursor::new("18446744073709551616")),
        Err(failure(0, "not a number: 18446744073709551616", None))
    );
    assert_eq!(
        number::<i64>(Cursor::new("9223372036854775808")),
        Err(failure(0, "not a number: 9223372036854775808", None))
    );
    assert_eq!(
        number::<u64>(Cursor::new("99999999999999999999999999")),
        Err(failure(0, "not a number: 99999999999999999999999999", None))
    );
}

#[test]
fn number_rejects_what_is_no_numeral() {
    assert_eq!(
        number::<u32>(Cursor::new("abc def")),
        Err(failure(0, "not a number: abc", None))
    );
    assert_eq!(
        number::<u32>(Cursor::new("")),
        Err(failure(0, "not a number: ", None))
    );
    assert_eq!(
        number::<u32>(Cursor::new("-5")),
        Err(failure(0, "not a number: -5", None))
    );
    assert_eq!(
        number::<i32>(Cursor::new("-")),
        Err(failure(0, "not a number: -", None))
    );
    assert_eq!(
        number::<i32>(Cursor::new("+5")),
        Err(failure(0, "not a number: +5", None))
    );
    let at = Cursor::new("ab cd").advance(3);
    assert_eq!(
        number::<u32>(at),
        Err(failure(3, "not a number: cd", None))
    );
}

#[test]
fn fmap_changes_what_was_read_and_nothing_else() {
    let (rest, value) = fmap(
        |n: u32| n + 1,
        |from| number::<u32>(from),
        Cursor::new("41 x"),
    )
    .unwrap();
    assert_eq!(value, 42);
    assert_eq!(rest.position(), 2);
    let failed: ParseResult<u32> = fmap(
        |n: u32| n + 1,
        |from| number::<u32>(from),
        Cursor::new("x"),
    );
    assert_eq!(failed, Err(failure(0, "not a number: x", None)));
}

#[test]
fn with_hint_asks_for_the_hint_only_on_failure() {
    let asked = Cell::new(0);
    let hint = || {
        asked.set(asked.get() + 1);
        Some("a number".to_owned())
    };
    let (_, value) = with_hint(hint, |from| number::<u32>(from), Cursor::new("5")).unwrap();
    assert_eq!(value, 5);
    assert_eq!(asked.get(), 0);
    let failed = with_hint(hint, |from| number::<u32>(from), Cursor::new("x"));
    assert_eq!(failed, Err(failure(0, "not a number: x", Some("a number"))));
    assert_eq!(asked.get(), 1);
}

#[test]
fn with_hint_keeps_a_hint_that_is_there() {
    let asked = Cell::new(false);
    let outer = || {
        asked.set(true);
        Some("outer".to_owned())
    };
    let inner = |from| with_hint(|| Some("inner".to_owned()), |from| number::<u32>(from), from);
    let failed = with_hint(outer, inner, Cursor::new("x"));
    assert_eq!(failed, Err(failure(0, "not a number: x", Some("inner"))));
    assert!(!asked.get());
}

#[test]
fn with_hint_may_have_nothing_to_say() {
    let failed = with_hint(|| None, |from| number::<u32>(from), Cursor::new("x"));
    assert_eq!(failed, Err(failure(0, "not a number: x", None)));
}

#[test]
fn or_takes_the_first_that_succeeds() {
    let one = |from| tag(1u8, "one", from);
    let two = |from| tag(2u8, "two", from);
    assert_eq!(or(one, two, Cursor::new("one")).unwrap().1, 1);
    assert_eq!(or(one, two, Cursor::new("two")).unwrap().1, 2);
    let both = |from| tag(3u8, "one", from);
    assert_eq!(or(one, both, Cursor::new("one")).unwrap().1, 1);
}

#[test]
fn or_names_both_when_neither_matches() {
    let one = |from| tag(1u8, "one", from);
    let two = |from| tag(2u8, "two", from);
    let at = Cursor::new("a three").advance(2);
    assert_eq!(
        or(one, two, at),
        Err(failure(2, "expected one or expected two", None))
    );
}

#[test]
fn or_keeps_the_first_hint() {
    let one = |from| with_hint(|| Some("first".to_owned()), |from| tag(1u8, "one", from), from);
    let two = |from| with_hint(|| Some("second".to_owned()), |from| tag(2u8, "two", from), from);
    let plain = |from| tag(1u8, "one", from);
    assert_eq!(
        or(one, two, Cursor::new("x")),
        Err(failure(0, "expected one or expected two", Some("first")))
    );
    assert_eq!(
        or(plain, two, Cursor::new("x")),
        Err(failure(0, "expected one or expected two", Some("second")))
    );
}

#[test]
fn or_does_not_try_the_second_after_input_was_consumed() {
    let tried = Cell::new(false);
    let first = |from| tagged("set", |from| number::<u32>(from), from);
    let second = |from| {
        tried.set(true);
        tag(0u32, "set x", from)
    };
    assert_eq!(
        or(first, second, Cursor::new("set x")),
        Err(failure(4, "not a number: x", None))
    );
    assert!(!tried.get());
}

#[test]
fn or_hands_on_a_second_failure_that_consumed_input() {
    let first = |from| tag(0u32, "get", from);
    let second = |from| tagged("set", |from| number::<u32>(from), from);
    assert_eq!(
        or(first, second, Cursor::new("set x")),
        Err(failure(4, "not a number: x", None))
    );
}

#[test]
fn tagged_skips_the_separators_behind_the_word() {
    let (rest, value) =
        tagged("some", |from| number::<u8>(from), Cursor::new("some   12 !")).unwrap();
    assert_eq!(value, 12);
    assert_eq!(rest.position(), 9);
    let (rest, value) = tagged("some", |from| number::<u8>(from), Cursor::new("some12")).unwrap();
    assert_eq!(value, 12);
    assert_eq!(rest.position(), 6);
}

#[test]
fn tagged_does_not_run_the_parser_without_the_word() {
    let ran = Cell::new(false);
    let parser = |from| {
        ran.set(true);
        number::<u8>(from)
    };
    assert_eq!(
        tagged("some", parser, Cursor::new("none")),
        Err(failure(0, "expected some", None))
    );
    assert!(!ran.get());
}

#[test]
fn bind_space_skips_only_when_told() {
    let after = Cursor::new("ab  12").advance(2);
    assert_eq!(after.bind_space(true, |from| number::<u8>(from)).unwrap().1, 12);
    assert_eq!(
        after.bind_space(false, |from| number::<u8>(from)),
        Err(failure(2, "not a number: ", None))
    );
    let tight = Cursor::new("ab12").advance(2);
    assert_eq!(tight.bind_space(true, |from| number::<u8>(from)).unwrap().1, 12);
    assert_eq!(tight.bind_space(false, |from| number::<u8>(from)).unwrap().1, 12);
}

fn fruit() -> Vec<(u8, String)> {
    vec![
        (10, "Apple".to_owned()),
        (20, "Banana".to_owned()),
        (30, "Cherry".to_owned()),
        (40, "Banana".to_owned()),
    ]
}

#[test]
fn lookup_key_finds_the_key_by_its_name() {
    let table = fruit();
    let (rest, key) = lookup_key(&table, 100, Cursor::new("Cherry 5")).unwrap();
    assert_eq!(key, 30);
    assert_eq!(rest.position(), 6);
    assert_eq!(rest.rest(), " 5");
    // the first entry with the name wins
    assert_eq!(lookup_key(&table, 100, Cursor::new("Banana")).unwrap().1, 20);
}

#[test]
fn lookup_key_compares_the_whole_word_letter_for_letter() {
    let table = fruit();
    let every = "expected one of: Apple, Banana, Cherry, Banana";
    assert_eq!(
        lookup_key(&table, 100, Cursor::new("apple")),
        Err(failure(0, every, None))
    );
    assert_eq!(
        lookup_key(&table, 100, Cursor::new("Apples")),
        Err(failure(0, every, None))
    );
    assert_eq!(
        lookup_key(&table, 100, Cursor::new("App le")),
        Err(failure(0, every, None))
    );
    assert_eq!(
        lookup_key(&table, 100, Cursor::new("")),
        Err(failure(0, every, None))
    );
}

#[test]
fn lookup_key_lists_no_more_names_than_the_limit() {
    let table = fruit();
    let at = Cursor::new("x Plum").advance(2);
    assert_eq!(
        lookup_key(&table, 2, at),
        Err(failure(2, "expected one of: Apple, Banana", None))
    );
    assert_eq!(
        lookup_key(&table, 1, at),
        Err(failure(2, "expected one of: Apple", None))
    );
    assert_eq!(
        lookup_key(&table, 0, at),
        Err(failure(2, "expected one of: ", None))
    );
    assert_eq!(
        lookup_key(&table, 4, at),
        Err(failure(2, "expected one of: Apple, Banana, Cherry, Banana", None))
    );
    let empty: Vec<(u8, String)> = Vec::new();
    assert_eq!(
        lookup_key(&empty, 100, at),
        Err(failure(2, "expected one of: ", None))
    );
}

#[test]
fn truth_values_are_read_by_name() {
    assert_eq!(bool::parse(Cursor::new("true")).unwrap().1, true);
    let (rest, value) = bool::parse(Cursor::new("false!")).unwrap();
    assert_eq!(value, false);
    assert_eq!(rest.position(), 5);
    assert_eq!(
        bool::parse(Cursor::new("True")),
        Err(failure(0, "expected true or expected false", None))
    );
}

#[test]
fn numbers_are_leaves() {
    assert_eq!(u8::parse(Cursor::new("12")).unwrap().1, 12);
    assert_eq!(i64::parse(Cursor::new("-12")).unwrap().1, -12);
    assert_eq!(
        u8::parse(Cursor::new("-12")),
        Err(failure(0, "not a number: -12", None))
    );
}

#[test]
fn failure_at_has_no_hint() {
    assert_eq!(
        Failure::at(4, "oops".to_owned()),
        failure(4, "oops", None)
    );
}
