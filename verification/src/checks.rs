//! Checks: what stands between a delta and a field of a structure.

use vstd::prelude::*;

verus! {

/// Puts `value` into `slot` if every check lets it pass. The checks are asked in their
/// order, each with the value that is there and the one that is to come; the first that
/// rejects ends the matter, and its message is returned. The slot changes only when all
/// have accepted.
pub fn apply_checked<T, F>(slot: &mut T, value: T, checks: &[F]) -> (result: Result<
    (),
    String,
>) where F: Fn(&T, &T) -> Result<(), String>
    requires
        forall|i: int|
            0 <= i < checks@.len() ==> #[trigger] call_requires(checks@[i], (&*old(slot), &value)),
    ensures
        match result {
            Ok(_) => {
                &&& *final(slot) == value
                &&& forall|i: int|
                    0 <= i < checks@.len() ==> #[trigger] call_ensures(
                        checks@[i],
                        (&*old(slot), &value),
                        Ok(()),
                    )
            },
            Err(message) => {
                &&& *final(slot) == *old(slot)
                &&& exists|i: int|
                    {
                        &&& 0 <= i < checks@.len()
                        &&& #[trigger] call_ensures(
                            checks@[i],
                            (&*old(slot), &value),
                            Err(message),
                        )
                        &&& forall|j: int|
                            0 <= j < i ==> #[trigger] call_ensures(
                                checks@[j],
                                (&*old(slot), &value),
                                Ok(()),
                            )
                    }
            },
        },
{
    let mut i: usize = 0;
    while i < checks.len()
        invariant
            i <= checks@.len(),
            *slot == *old(slot),
            forall|k: int|
                0 <= k < checks@.len() ==> #[trigger] call_requires(
                    checks@[k],
                    (&*old(slot), &value),
                ),
            forall|j: int|
                0 <= j < i ==> #[trigger] call_ensures(checks@[j], (&*old(slot), &value), Ok(())),
        decreases checks@.len() - i,
    {
        let verdict = checks[i](&*slot, &value);
        match verdict {
            Ok(unit) => {
                assert(unit == ());
            },
            Err(message) => {
                return Err(message);
            },
        }
        i = i + 1;
    }
    *slot = value;
    Ok(())
}

} // verus!
