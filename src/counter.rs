//! The counter that drives a sequence, and the encoder that turns a counter into its string.
use crate::bijective::encode;
use vstd::prelude::*;

verus! {

/// An unsigned integer that can back a sequence's counter.
pub trait Counter: Sized {
    /// The number this counter holds.
    spec fn value(&self) -> nat;

    /// Whether this counter type can hold the number `n`.
    spec fn holds(n: nat) -> bool;

    /// Every value a counter has is representable, and so is every smaller number.
    proof fn lemma_holds(&self, n: nat)
        requires
            n <= self.value(),
        ensures
            Self::holds(n),
    ;

    fn zero() -> (r: Self)
        ensures
            r.value() == 0,
    ;

    fn is_zero(&self) -> (r: bool)
        ensures
            r == (self.value() == 0),
    ;

    fn copy_value(&self) -> (r: Self)
        ensures
            r.value() == self.value(),
    ;

    /// `self + n`, or `None` where the sum cannot be held.
    fn checked_add_u64(&self, n: u64) -> (r: Option<Self>)
        ensures
            match r {
                Some(c) => Self::holds(self.value() + n as nat) && c.value() == self.value() + n,
                None => !Self::holds(self.value() + n as nat),
            },
    ;

    fn decrement(&self) -> (r: Self)
        requires
            self.value() >= 1,
        ensures
            r.value() == self.value() - 1,
    ;

    fn div_u64(&self, k: u64) -> (r: Self)
        requires
            k >= 1,
        ensures
            r.value() == self.value() / (k as nat),
    ;

    fn rem_u64(&self, k: u64) -> (r: u64)
        requires
            k >= 1,
        ensures
            r == self.value() % (k as nat),
    ;
}

impl Counter for u128 {
    open spec fn value(&self) -> nat {
        *self as nat
    }

    open spec fn holds(n: nat) -> bool {
        n <= u128::MAX
    }

    proof fn lemma_holds(&self, n: nat) {
    }

    fn zero() -> (r: Self) {
        0
    }

    fn is_zero(&self) -> (r: bool) {
        *self == 0
    }

    fn copy_value(&self) -> (r: Self) {
        *self
    }

    fn checked_add_u64(&self, n: u64) -> (r: Option<Self>) {
        self.checked_add(n as u128)
    }

    fn decrement(&self) -> (r: Self) {
        *self - 1
    }

    fn div_u64(&self, k: u64) -> (r: Self) {
        *self / (k as u128)
    }

    fn rem_u64(&self, k: u64) -> (r: u64) {
        (*self % (k as u128)) as u64
    }
}

/// Relies on `String::insert`: inserting at byte index 0, always a character
/// boundary, makes `c` the first character and keeps the others after it.
#[verifier::external_body]
fn prepend_char(s: &mut String, c: char)
    ensures
        final(s)@ == seq![c] + old(s)@,
{
    s.insert(0, c);
}

/// The string that counter `u` denotes over `range`, in bijective base `range.len()`.
pub fn to_letters<C: Counter>(range: &[char], u: &C) -> (r: String)
    requires
        range@.len() >= 1,
    ensures
        r@ == encode(range@, u.value()),
{
    let mut result = String::new();
    let range_len: u64 = range.len() as u64;
    let mut quotient = u.copy_value();
    while !quotient.is_zero()
        invariant
            range_len == range@.len(),
            range_len >= 1,
            encode(range@, u.value()) == encode(range@, quotient.value()) + result@,
        decreases quotient.value(),
    {
        // digits run from 1 to k: step down to index the alphabet from 0
        let decremented = quotient.decrement();
        let remainder = decremented.rem_u64(range_len);
        let next = decremented.div_u64(range_len);
        proof {
            let k = range@.len();
            let d = decremented.value();
            assert(encode(range@, quotient.value()) == encode(range@, d / k) + seq![
                range@[(d % k) as int],
            ]);
            vstd::arithmetic::div_mod::lemma_div_is_ordered_by_denominator(d as int, 1, k as int);
        }
        let symbol = range[remainder as usize];
        let ghost before = result@;
        prepend_char(&mut result, symbol);
        assert(encode(range@, u.value()) == encode(range@, next.value()) + result@) by {
            assert(seq![symbol] + before =~= result@);
            assert(encode(range@, next.value()) + seq![symbol] + before =~= encode(range@, next.value()) + result@);
        }
        quotient = next;
    }
    assert(result@ =~= encode(range@, u.value()));
    result
}

} // verus!
