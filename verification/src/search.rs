//! The first failure of a sequence of checks.

use vstd::prelude::*;

verus! {

/// The first `Some` among `check(0)`, .., `check(count - 1)`.
pub open spec fn first_some<E>(count: nat, check: spec_fn(int) -> Option<E>) -> Option<E>
    decreases count,
{
    if count == 0 {
        None
    } else {
        match first_some((count - 1) as nat, check) {
            Some(found) => Some(found),
            None => check(count - 1),
        }
    }
}

/// What an earlier check finds is what the whole sequence finds.
pub proof fn first_some_stays<E>(earlier: nat, count: nat, check: spec_fn(int) -> Option<E>)
    requires
        earlier <= count,
        first_some(earlier, check) is Some,
    ensures
        first_some(count, check) == first_some(earlier, check),
    decreases count,
{
    if earlier < count {
        first_some_stays(earlier, (count - 1) as nat, check);
    }
}

/// Nothing is found if and only if no check fails.
pub proof fn first_some_none<E>(count: nat, check: spec_fn(int) -> Option<E>)
    ensures
        first_some(count, check) is None <==> (forall|i: int|
            0 <= i < count ==> (#[trigger] check(i)) is None),
    decreases count,
{
    if count > 0 {
        first_some_none((count - 1) as nat, check);
        if first_some(count, check) is None {
            assert forall|i: int| 0 <= i < count implies (#[trigger] check(i)) is None by {
                if i == count - 1 {
                } else {
                }
            }
        } else {
            if first_some((count - 1) as nat, check) is Some {
                let i = choose|i: int| 0 <= i < count - 1 && (#[trigger] check(i)) is Some;
                assert(check(i) is Some);
            } else {
                assert(check(count - 1) is Some);
            }
        }
    }
}

/// What is found is what one of the checks finds.
pub proof fn first_some_found<E>(count: nat, check: spec_fn(int) -> Option<E>)
    ensures
        first_some(count, check) matches Some(found) ==> exists|i: int|
            0 <= i < count && #[trigger] check(i) == Some(found),
    decreases count,
{
    if count > 0 {
        first_some_found((count - 1) as nat, check);
        if first_some((count - 1) as nat, check) is None {
            assert(check(count - 1) == first_some(count, check));
        }
    }
}

/// The first of two findings.
pub open spec fn or_else<E>(first: Option<E>, second: Option<E>) -> Option<E> {
    match first {
        Some(found) => Some(found),
        None => second,
    }
}

/// `None` becomes `Ok`, `Some` becomes `Err`.
pub open spec fn outcome<E>(failure: Option<E>) -> Result<(), E> {
    match failure {
        None => Ok(()),
        Some(error) => Err(error),
    }
}

} // verus!
