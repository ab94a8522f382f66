//! Unbounded, non-repeating sequences of short strings over an alphabet, generated by
//! counting in bijective base-k numeration (a, b, ..., z, aa, ab, ...).
use crate::bijective::{emitted, encode};
use crate::sequence::{advance, skip_by, take_from};
use vstd::prelude::*;

pub mod bijective;
pub mod counter;
pub mod sequence;
pub mod non_repeating_strings_u128;
pub mod non_repeating_strings_bigint;
pub mod big_count;

verus! {

/// The default alphabet: the lowercase Latin letters, then the uppercase ones.
pub const DEFAULT_RANGE: [char; 52] = [
    'a', 'b', 'c', 'd', 'e', 'f', 'g', 'h', 'i', 'j', 'k', 'l', 'm', 'n', 'o', 'p', 'q', 'r', 's',
    't', 'u', 'v', 'w', 'x', 'y', 'z', 'A', 'B', 'C', 'D', 'E', 'F', 'G', 'H', 'I', 'J', 'K', 'L',
    'M', 'N', 'O', 'P', 'Q', 'R', 'S', 'T', 'U', 'V', 'W', 'X', 'Y', 'Z',
];

/// The default alphabet as a sequence of symbols.
pub open spec fn default_alphabet() -> Seq<char> {
    seq![
        'a', 'b', 'c', 'd', 'e', 'f', 'g', 'h', 'i', 'j', 'k', 'l', 'm', 'n', 'o', 'p', 'q', 'r',
        's', 't', 'u', 'v', 'w', 'x', 'y', 'z', 'A', 'B', 'C', 'D', 'E', 'F', 'G', 'H', 'I', 'J',
        'K', 'L', 'M', 'N', 'O', 'P', 'Q', 'R', 'S', 'T', 'U', 'V', 'W', 'X', 'Y', 'Z',
    ]
}

/// Why a sequence could not be built or advanced.
#[derive(Debug, Clone, Copy, PartialEq, Eq, Structural)]
pub enum CombinatorError {
    /// The alphabet holds no symbol.
    InvalidAlphabet,
    /// The counter cannot hold the count that was asked for.
    CounterOverflow,
}

/// Creates all combinations from the given range, in the order of a `u128` counter.
#[derive(Clone)]
pub struct CharCombinator {
    current: u128,
    range: Vec<char>,
}

impl CharCombinator {
    /// The count reached so far: the number of the last string produced.
    pub closed spec fn counter(&self) -> nat {
        self.current as nat
    }

    /// The ordered symbols the strings are made of.
    pub closed spec fn alphabet(&self) -> Seq<char> {
        self.range@
    }

    /// Well-formed: the alphabet holds at least one symbol, so every count has a string.
    pub open spec fn wf(&self) -> bool {
        self.alphabet().len() >= 1
    }

    /// Creates a new iterator with a specified range; fails on an empty range.
    pub fn new(range: &[char]) -> (r: Result<CharCombinator, CombinatorError>)
        ensures
            match r {
                Ok(c) => range@.len() >= 1 && c.wf() && c.alphabet() == range@ && c.counter() == 0,
                Err(e) => range@.len() == 0 && e == CombinatorError::InvalidAlphabet,
            },
    {
        CharCombinator::new_from(0, range)
    }

    /// Creates a new iterator with a specified range, starting at the given count;
    /// fails on an empty range.
    pub fn new_from(start: u128, range: &[char]) -> (r: Result<CharCombinator, CombinatorError>)
        ensures
            match r {
                Ok(c) => range@.len() >= 1 && c.wf() && c.alphabet() == range@ && c.counter()
                    == start,
                Err(e) => range@.len() == 0 && e == CombinatorError::InvalidAlphabet,
            },
    {
        if range.len() == 0 {
            Err(CombinatorError::InvalidAlphabet)
        } else {
            Ok(CharCombinator { current: start, range: vstd::slice::slice_to_vec(range) })
        }
    }

    /// Returns the current count of the iterator.
    pub fn current(&self) -> (r: &u128)
        ensures
            *r as nat == self.counter(),
    {
        &self.current
    }

    /// Advances the count by one and returns the string of the new count; fails,
    /// changing nothing, where the count would pass `u128::MAX`.
    pub fn next(&mut self) -> (r: Result<String, CombinatorError>)
        requires
            old(self).wf(),
        ensures
            final(self).wf(),
            final(self).alphabet() == old(self).alphabet(),
            match r {
                Ok(s) => {
                    &&& old(self).counter() < u128::MAX
                    &&& final(self).counter() == old(self).counter() + 1
                    &&& s@ == encode(old(self).alphabet(), final(self).counter())
                },
                Err(e) => {
                    &&& old(self).counter() == u128::MAX
                    &&& e == CombinatorError::CounterOverflow
                    &&& final(self).counter() == old(self).counter()
                },
            },
    {
        advance(&mut self.current, self.range.as_slice())
    }

    /// Passes over the next `n` strings without producing them; fails, changing
    /// nothing, where the count would pass `u128::MAX`.
    pub fn skip(&mut self, n: usize) -> (r: Result<(), CombinatorError>)
        requires
            old(self).wf(),
        ensures
            final(self).wf(),
            final(self).alphabet() == old(self).alphabet(),
            match r {
                Ok(_) => {
                    &&& old(self).counter() + n <= u128::MAX
                    &&& final(self).counter() == old(self).counter() + n
                },
                Err(e) => {
                    &&& old(self).counter() + n > u128::MAX
                    &&& e == CombinatorError::CounterOverflow
                    &&& final(self).counter() == old(self).counter()
                },
            },
    {
        skip_by(&mut self.current, n)
    }

    /// The next `n` strings, in order; fails, producing none and changing nothing,
    /// where the count would pass `u128::MAX`.
    pub fn take(&mut self, n: usize) -> (r: Result<Vec<String>, CombinatorError>)
        requires
            old(self).wf(),
        ensures
            final(self).wf(),
            final(self).alphabet() == old(self).alphabet(),
            match r {
                Ok(v) => {
                    &&& old(self).counter() + n <= u128::MAX
                    &&& final(self).counter() == old(self).counter() + n
                    &&& v@.len() == n
                    &&& forall|i: int|
                        0 <= i < n ==> #[trigger] v@[i]@ == emitted(
                            old(self).alphabet(),
                            old(self).counter(),
                            n as nat,
                        )[i]
                },
                Err(e) => {
                    &&& old(self).counter() + n > u128::MAX
                    &&& e == CombinatorError::CounterOverflow
                    &&& final(self).counter() == old(self).counter()
                },
            },
    {
        take_from(&mut self.current, self.range.as_slice(), n)
    }
}

impl Default for CharCombinator {
    /// An iterator over the default range, starting at count 0.
    fn default() -> (r: CharCombinator)
        ensures
            r.wf(),
            r.alphabet() == default_alphabet(),
            r.counter() == 0,
    {
        CharCombinator { current: 0, range: vstd::slice::slice_to_vec(&DEFAULT_RANGE) }
    }
}

} // verus!
