//! A map with one entry for every key, entered by the key's display name.

use crate::combinators::{
    keys, literal, literal_outcome, lookup_key, lookup_outcome, names,
};
use crate::cursor::{outcome, Cursor, CursorView, Outcome, ParseResult};
use crate::leaf::Describe;
use crate::text::decimal;
use crate::updater::Updater;
use vstd::prelude::*;

verus! {

/// A number for every `u8`, held in an `enum_map::EnumMap<u8, u64>`.
#[verifier::external_body]
#[derive(Debug, PartialEq, Eq)]
pub struct ByteMap {
    inner: enum_map::EnumMap<u8, u64>,
}

/// What a map holds: the number under each key.
pub uninterp spec fn entries(map: ByteMap) -> Map<u8, u64>;

/// The map that `map` is once `value` has been stored under `key`.
pub uninterp spec fn with_entry(map: ByteMap, key: u8, value: u64) -> ByteMap;

/// How many display names a failed lookup lists at most.
pub const MAX_CANDIDATES: usize = 100;

/// `EnumMap::default`: by the crate's `Default` impl every entry is made by
/// `u64::default()`, which is zero.
#[verifier::external_body]
fn zeroed() -> (map: ByteMap)
    ensures
        forall|key: u8| #[trigger] entries(map)[key] == 0,
{
    ByteMap { inner: enum_map::EnumMap::default() }
}

/// `EnumMap::iter`, of which only the keys are kept. The iterator walks the map's slice
/// and makes the key of each place by `u8::from_usize`: every `u8` once, in rising
/// order.
#[verifier::external_body]
fn key_list(map: &ByteMap) -> (list: Vec<u8>)
    ensures
        list@ == all_keys(),
{
    map.inner.iter().map(|(key, _)| key).collect()
}

/// `Index::index` of `EnumMap`: a reference to the entry under `key`. For a `u8` key the
/// place is always inside the map's 256 entries.
#[verifier::external_body]
fn slot(map: &ByteMap, key: u8) -> (value: &u64)
    ensures
        *value == entries(*map)[key],
{
    &map.inner[key]
}

/// `IndexMut::index_mut` of `EnumMap`: a mutable reference to the entry under `key`.
/// What is written through it is what the map then holds under `key`; the other entries
/// stay.
#[verifier::external_body]
fn slot_mut(map: &mut ByteMap, key: u8) -> (value: &mut u64)
    ensures
        *value == entries(*old(map))[key],
        *final(map) == with_entry(*old(map), key, *final(value)),
        entries(*final(map)) == entries(*old(map)).insert(key, *final(value)),
{
    &mut map.inner[key]
}

/// Every key, in rising order.
pub open spec fn all_keys() -> Seq<u8> {
    Seq::new(256, |i: int| i as u8)
}

/// The display name of every key, in the order of the keys: its decimal numeral.
pub open spec fn all_names() -> Seq<Seq<char>> {
    Seq::new(256, |i: int| decimal(i as nat))
}

impl ByteMap {
    /// The map that holds zero under every key.
    pub fn new() -> (map: ByteMap)
        ensures
            forall|key: u8| #[trigger] entries(map)[key] == 0,
    {
        zeroed()
    }

    /// The number under `key`.
    pub fn get(&self, key: u8) -> (value: u64)
        ensures
            value == entries(*self)[key],
    {
        *slot(self, key)
    }

    /// The keys of the map, each with its display name.
    pub fn table(&self) -> (table: Vec<(u8, String)>)
        ensures
            keys(table@) == all_keys(),
            names(table@) == all_names(),
    {
        let list = key_list(self);
        let mut table: Vec<(u8, String)> = Vec::new();
        let mut i: usize = 0;
        while i < list.len()
            invariant
                list@ == all_keys(),
                i <= list.len(),
                table@.len() == i,
                forall|j: int| 0 <= j < i ==> (#[trigger] table@[j]).0 == j as u8,
                forall|j: int| 0 <= j < i ==> (#[trigger] table@[j]).1@ == decimal(j as nat),
            decreases list.len() - i,
        {
            let key = list[i];
            table.push((key, key.describe()));
            i = i + 1;
        }
        assert(keys(table@) =~= all_keys());
        assert(names(table@) =~= all_names());
        table
    }
}

/// A map is entered by its label and the display name of a key; the rest of the command
/// goes to the entry under that key, under the label `.`. Its delta is the key and the
/// entry's delta.
impl Updater for ByteMap {
    type Updater = (u8, u64);

    open spec fn parsed(&self, entry: Seq<char>, input: CursorView) -> Outcome<(u8, u64)> {
        match literal_outcome(entry, input) {
            Ok((after_label, _)) => match lookup_outcome(
                all_keys(),
                all_names(),
                MAX_CANDIDATES as nat,
                after_label.skip_spaces(),
            ) {
                Ok((behind, key)) => match entries(*self)[key].parsed("."@, behind.skip_spaces()) {
                    Ok((rest, delta)) => Ok((rest, (key, delta))),
                    Err(failure) => Err(failure),
                },
                Err(failure) => Err(failure),
            },
            Err(failure) => Err(failure),
        }
    }

    open spec fn applied(&self, updater: (u8, u64)) -> Result<Self, Seq<char>> {
        match entries(*self)[updater.0].applied(updater.1) {
            Ok(value) => Ok(with_entry(*self, updater.0, value)),
            Err(message) => Err(message),
        }
    }

    fn enter<'a>(&self, entry: &'static str, input: Cursor<'a>) -> (result: ParseResult<
        'a,
        (u8, u64),
    >) {
        let table = self.table();
        let (after_label, _) = literal(entry, input)?;
        let select = |from: Cursor<'a>| -> (found: ParseResult<'a, u8>)
            ensures
                outcome(found) == lookup_outcome(
                    all_keys(),
                    all_names(),
                    MAX_CANDIDATES as nat,
                    from@,
                ),
            { lookup_key(&table, MAX_CANDIDATES, from) };
        let (behind, key) = after_label.bind_space(true, select)?;
        let value = |from: Cursor<'a>| -> (found: ParseResult<'a, u64>)
            ensures
                outcome(found) == entries(*self)[key].parsed("."@, from@),
            { slot(self, key).enter(".", from) };
        let (rest, delta) = behind.bind_space(true, value)?;
        Ok((rest, (key, delta)))
    }

    /// Stores the number of the delta under the key of the delta; every other key keeps
    /// its number.
    fn apply(&mut self, updater: (u8, u64)) -> (result: Result<(), String>)
        ensures
            result is Ok,
            entries(*final(self)) == entries(*old(self)).insert(updater.0, updater.1),
    {
        let (key, delta) = updater;
        let value = slot_mut(self, key);
        value.apply(delta)
    }
}

} // verus!
