//! The bounded counter strategy: a sequence whose count is a `u128`.
use crate::bijective::{emitted, encode};
use crate::sequence::{advance, skip_by, take_from};
use crate::{default_alphabet, CombinatorError};
use vstd::prelude::*;

pub use crate::DEFAULT_RANGE;

verus! {

/// A non-repeating sequence of strings over a range, counted with a `u128`.
#[derive(Clone)]
pub struct NonRepeatingStrings {
    current: u128,
    range: Vec<char>,
}

impl NonRepeatingStrings {
    /// The count reached so far: the number of the last string produced.
    pub closed spec fn counter(&self) -> nat {
        self.current as nat
    }

    /// The ordered symbols the strings are made of.
    pub closed spec fn alphabet(&self) -> Seq<char> {
        self.range@
    }

    /// Well-formed: the alphabet holds at least one symbol, so every count has a string.
    pub open spec fn wf(&self) -> bool {
        self.alphabet().len() >= 1
    }

    /// Creates a new iterator with a specified range; fails on an empty range.
    pub fn new(range: &[char]) -> (r: Result<NonRepeatingStrings, CombinatorError>)
        ensures
            match r {
                Ok(c) => range@.len() >= 1 && c.wf() && c.alphabet() == range@ && c.counter() == 0,
                Err(e) => range@.len() == 0 && e == CombinatorError::InvalidAlphabet,
            },
    {
        NonRepeatingStrings::new_from(0, range)
    }

    /// Creates a new iterator with a specified range, starting at the given count;
    /// fails on an empty range.
    pub fn new_from(start: u128, range: &[char]) -> (r: Result<NonRepeatingStrings, CombinatorError>)
        ensures
            match r {
                Ok(c) => range@.len() >= 1 && c.wf() && c.alphabet() == range@ && c.counter()
                    == start,
                Err(e) => range@.len() == 0 && e == CombinatorError::InvalidAlphabet,
            },
    {
        if range.len() == 0 {
            Err(CombinatorError::InvalidAlphabet)
        } else {
            Ok(NonRepeatingStrings { current: start, range: vstd::slice::slice_to_vec(range) })
        }
    }

    /// Returns the current count of the iterator.
    pub fn current(&self) -> (r: &u128)
        ensures
            *r as nat == self.counter(),
    {
        &self.current
    }

    /// Advances the count by one and returns the string of the new count; fails,
    /// changing nothing, where the count would pass `u128::MAX`.
    pub fn next(&mut self) -> (r: Result<String, CombinatorError>)
        requires
            old(self).wf(),
        ensures
            final(self).wf(),
            final(self).alphabet() == old(self).alphabet(),
            match r {
                Ok(s) => {
                    &&& old(self).counter() < u128::MAX
                    &&& final(self).counter() == old(self).counter() + 1
                    &&& s@ == encode(old(self).alphabet(), final(self).counter())
                },
                Err(e) => {
                    &&& old(self).counter() == u128::MAX
                    &&& e == CombinatorError::CounterOverflow
                    &&& final(self).counter() == old(self).counter()
                },
            },
    {
        advance(&mut self.current, self.range.as_slice())
    }

    /// Passes over the next `n` strings without producing them; fails, changing
    /// nothing, where the count would pass `u128::MAX`.
    pub fn skip(&mut self, n: usize) -> (r: Result<(), CombinatorError>)
        requires
            old(self).wf(),
        ensures
            final(self).wf(),
            final(self).alphabet() == old(self).alphabet(),
            match r {
                Ok(_) => {
                    &&& old(self).counter() + n <= u128::MAX
                    &&& final(self).counter() == old(self).counter() + n
                },
                Err(e) => {
                    &&& old(self).counter() + n > u128::MAX
                    &&& e == CombinatorError::CounterOverflow
                    &&& final(self).counter() == old(self).counter()
                },
            },
    {
        skip_by(&mut self.current, n)
    }

    /// The next `n` strings, in order; fails, producing none and changing nothing,
    /// where the count would pass `u128::MAX`.
    pub fn take(&mut self, n: usize) -> (r: Result<Vec<String>, CombinatorError>)
        requires
            old(self).wf(),
        ensures
            final(self).wf(),
            final(self).alphabet() == old(self).alphabet(),
            match r {
                Ok(v) => {
                    &&& old(self).counter() + n <= u128::MAX
                    &&& final(self).counter() == old(self).counter() + n
                    &&& v@.len() == n
                    &&& forall|i: int|
                        0 <= i < n ==> #[trigger] v@[i]@ == emitted(
                            old(self).alphabet(),
                            old(self).counter(),
                            n as nat,
                        )[i]
                },
                Err(e) => {
                    &&& old(self).counter() + n > u128::MAX
                    &&& e == CombinatorError::CounterOverflow
                    &&& final(self).counter() == old(self).counter()
                },
            },
    {
        take_from(&mut self.current, self.range.as_slice(), n)
    }
}

impl Default for NonRepeatingStrings {
    /// An iterator over the default range, starting at count 0.
    fn default() -> (r: NonRepeatingStrings)
        ensures
            r.wf(),
            r.alphabet() == default_alphabet(),
            r.counter() == 0,
    {
        NonRepeatingStrings { current: 0, range: vstd::slice::slice_to_vec(&DEFAULT_RANGE) }
    }
}

} // verus!
