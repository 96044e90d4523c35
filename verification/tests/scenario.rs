use updater::combinators::{literal, or, tagged};
use updater::{apply_checked, updater_for, Cursor, Failure, ParseResult, Updater};

type Check = fn(&f64, &f64) -> Result<(), String>;

fn ten_percent(orig: &f64, new: &f64) -> Result<(), String> {
    let diff = (*orig - *new) * 100.0 / (*orig);
    if (-10.0..=10.0).contains(&diff) {
        Ok(())
    } else {
        Err(format!("Change {} -> {} is to large", orig, new))
    }
}

fn positive(_: &f64, new: &f64) -> Result<(), String> {
    if *new > 0.0 {
        Ok(())
    } else {
        Err("New value must be positive".to_owned())
    }
}

#[derive(Debug)]
struct Foo {
    foo: f64,
    bar: f64,
}

#[derive(Debug, PartialEq)]
enum FooUpdater {
    Foo(f64),
    Bar(f64),
}

fn float<'a>(input: Cursor<'a>) -> ParseResult<'a, f64> {
    let word = input.word();
    match word.parse::<f64>() {
        Ok(value) => Ok((input.advance(word.chars().count()), value)),
        Err(_) => Err(Failure::at(input.position(), format!("not a number: {}", word))),
    }
}

impl Updater for Foo {
    type Updater = FooUpdater;

    fn enter<'a>(&self, entry: &'static str, input: Cursor<'a>) -> ParseResult<'a, FooUpdater> {
        let (after_label, _) = literal(entry, input)?;
        let (after_dot, _) = after_label.bind_space(true, |from| literal(".", from))?;
        let foo = |from| {
            tagged(
                "foo",
                |from| float(from).map(|(rest, value)| (rest, FooUpdater::Foo(value))),
                from,
            )
        };
        let bar = |from| {
            tagged(
                "bar",
                |from| float(from).map(|(rest, value)| (rest, FooUpdater::Bar(value))),
                from,
            )
        };
        after_dot.bind_space(true, |from| or(foo, bar, from))
    }

    fn apply(&mut self, updater: FooUpdater) -> Result<(), String> {
        match updater {
            FooUpdater::Foo(value) => {
                let checks: [Check; 1] = [ten_percent];
                apply_checked(&mut self.foo, value, &checks)
            }
            FooUpdater::Bar(value) => {
                let checks: [Check; 2] = [ten_percent, positive];
                apply_checked(&mut self.bar, value, &checks)
            }
        }
    }
}

#[test]
fn test_updater() {
    let mut payload = Foo {
        foo: 100.0,
        bar: 100.0,
    };

    payload.apply(FooUpdater::Foo(95.0)).unwrap();
    payload.apply(FooUpdater::Foo(65.0)).unwrap_err();

    payload.bar = -100.0;
    payload.apply(FooUpdater::Bar(-99.0)).unwrap_err();
}

#[test]
fn rejected_change_leaves_the_field_and_gives_the_first_message() {
    let mut payload = Foo {
        foo: 100.0,
        bar: 100.0,
    };
    assert_eq!(payload.apply(FooUpdater::Foo(95.0)), Ok(()));
    assert_eq!(payload.foo, 95.0);
    assert_eq!(
        payload.apply(FooUpdater::Foo(65.0)),
        Err("Change 95 -> 65 is to large".to_owned())
    );
    assert_eq!(payload.foo, 95.0);

    payload.bar = -100.0;
    assert_eq!(
        payload.apply(FooUpdater::Bar(-99.0)),
        Err("New value must be positive".to_owned())
    );
    assert_eq!(payload.bar, -100.0);
    // both checks reject: the first one's message is the one that comes back
    assert_eq!(
        payload.apply(FooUpdater::Bar(-50.0)),
        Err("Change -100 -> -50 is to large".to_owned())
    );
    assert_eq!(payload.bar, -100.0);
}

#[test]
fn accepted_change_is_stored() {
    let mut payload = Foo {
        foo: 100.0,
        bar: 100.0,
    };
    assert_eq!(payload.apply(FooUpdater::Bar(105.0)), Ok(()));
    assert_eq!(payload.bar, 105.0);
    assert_eq!(payload.foo, 100.0);
}

#[test]
fn no_checks_always_store() {
    let mut value = 1u32;
    let checks: [fn(&u32, &u32) -> Result<(), String>; 0] = [];
    assert_eq!(apply_checked(&mut value, 7, &checks), Ok(()));
    assert_eq!(value, 7);
}

#[test]
fn structure_is_entered_by_label_dot_and_field() {
    let payload = Foo {
        foo: 100.0,
        bar: 100.0,
    };
    let mut parse = updater_for(&payload, "foo");
    let (rest, delta) = parse("foo . bar 97.5").unwrap();
    assert_eq!(delta, FooUpdater::Bar(97.5));
    assert_eq!(rest.position(), 14);
    assert_eq!(rest.rest(), "");
    let (_, delta) = parse("foo . foo 3 trailing").unwrap();
    assert_eq!(delta, FooUpdater::Foo(3.0));
    let failure = parse("foo . baz 3").unwrap_err();
    assert_eq!(failure.position, 6);
    assert_eq!(failure.message, "expected foo or expected bar");
    // reading does not touch the value
    assert_eq!(payload.foo, 100.0);
    assert_eq!(payload.bar, 100.0);
}
