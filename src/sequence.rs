//! The steps of a sequence, shared by every counter strategy.
use crate::bijective::{emitted, encode};
use crate::counter::{to_letters, Counter};
use crate::CombinatorError;
use vstd::prelude::*;

verus! {

/// Increments `current` and returns the string of the new count; where the
/// counter cannot hold the next count, leaves it unchanged and reports overflow.
pub fn advance<C: Counter>(current: &mut C, range: &[char]) -> (r: Result<String, CombinatorError>)
    requires
        range@.len() >= 1,
    ensures
        match r {
            Ok(s) => {
                &&& C::holds(old(current).value() + 1)
                &&& final(current).value() == old(current).value() + 1
                &&& s@ == encode(range@, final(current).value())
            },
            Err(e) => {
                &&& !C::holds(old(current).value() + 1)
                &&& e == CombinatorError::CounterOverflow
                &&& final(current).value() == old(current).value()
            },
        },
{
    match current.checked_add_u64(1) {
        Some(next) => {
            *current = next;
            Ok(to_letters(range, current))
        },
        None => Err(CombinatorError::CounterOverflow),
    }
}

/// Moves `current` on by `n` without producing the strings in between; where the
/// counter cannot hold the new count, leaves it unchanged and reports overflow.
pub fn skip_by<C: Counter>(current: &mut C, n: usize) -> (r: Result<(), CombinatorError>)
    ensures
        match r {
            Ok(_) => {
                &&& C::holds(old(current).value() + n as nat)
                &&& final(current).value() == old(current).value() + n
            },
            Err(e) => {
                &&& !C::holds(old(current).value() + n as nat)
                &&& e == CombinatorError::CounterOverflow
                &&& final(current).value() == old(current).value()
            },
        },
{
    match current.checked_add_u64(n as u64) {
        Some(next) => {
            *current = next;
            Ok(())
        },
        None => Err(CombinatorError::CounterOverflow),
    }
}

/// The next `n` strings, in order; where the counter cannot hold the last of their
/// counts, produces none, leaves it unchanged and reports overflow.
pub fn take_from<C: Counter>(current: &mut C, range: &[char], n: usize) -> (r: Result<
    Vec<String>,
    CombinatorError,
>)
    requires
        range@.len() >= 1,
    ensures
        match r {
            Ok(v) => {
                &&& C::holds(old(current).value() + n as nat)
                &&& final(current).value() == old(current).value() + n
                &&& v@.len() == n
                &&& forall|i: int|
                    0 <= i < n ==> #[trigger] v@[i]@ == emitted(range@, old(current).value(), n as nat)[i]
            },
            Err(e) => {
                &&& !C::holds(old(current).value() + n as nat)
                &&& e == CombinatorError::CounterOverflow
                &&& final(current).value() == old(current).value()
            },
        },
{
    let last = match current.checked_add_u64(n as u64) {
        Some(last) => last,
        None => {
            return Err(CombinatorError::CounterOverflow);
        },
    };
    let ghost start = current.value();
    let mut out: Vec<String> = Vec::new();
    let mut i: usize = 0;
    while i < n
        invariant
            range@.len() >= 1,
            i <= n,
            current.value() == start + i,
            last.value() == start + n,
            out@.len() == i,
            forall|j: int| 0 <= j < i ==> #[trigger] out@[j]@ == encode(range@, start + j as nat + 1),
        decreases n - i,
    {
        proof {
            last.lemma_holds(current.value() + 1);
        }
        match advance(current, range) {
            Ok(s) => out.push(s),
            Err(_) => {
                assert(false);
            },
        }
        i = i + 1;
    }
    Ok(out)
}

} // verus!
