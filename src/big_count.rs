//! An arbitrary-precision unsigned count, held as base-2^32 digits, whose arithmetic is
//! done by `num_bigint::BigUint`.
use crate::counter::Counter;
use num_bigint::BigUint;
use num_traits::{ToPrimitive, Zero};
use vstd::prelude::*;

verus! {

/// The number that base-2^32 digits denote, least significant digit first.
pub open spec fn digits_value(digits: Seq<u32>) -> nat
    decreases digits.len(),
{
    if digits.len() == 0 {
        0
    } else {
        digits[0] as nat + 0x1_0000_0000 * digits_value(digits.drop_first())
    }
}

/// An unbounded unsigned count.
#[derive(Clone)]
pub struct BigCount {
    digits: Vec<u32>,
}

impl View for BigCount {
    type V = nat;

    closed spec fn view(&self) -> nat {
        digits_value(self.digits@)
    }
}

/// Relies on `BigUint::new`, `BigUint + u64` and `BigUint::to_u32_digits`: the sum,
/// exact, read back as base-2^32 digits.
#[verifier::external_body]
fn big_add(digits: &Vec<u32>, n: u64) -> (r: Vec<u32>)
    ensures
        digits_value(r@) == digits_value(digits@) + n,
{
    (BigUint::new(digits.clone()) + n).to_u32_digits()
}

/// Relies on `BigUint::new`, `BigUint - u32` and `BigUint::to_u32_digits`: the
/// difference, exact; the subtraction panics below zero, which `requires` excludes.
#[verifier::external_body]
fn big_sub_one(digits: &Vec<u32>) -> (r: Vec<u32>)
    requires
        digits_value(digits@) >= 1,
    ensures
        digits_value(r@) == digits_value(digits@) - 1,
{
    (BigUint::new(digits.clone()) - 1u32).to_u32_digits()
}

/// Relies on `BigUint::new`, `BigUint / u64` and `BigUint::to_u32_digits`: the floor
/// quotient; division by zero panics, which `requires` excludes.
#[verifier::external_body]
fn big_div(digits: &Vec<u32>, k: u64) -> (r: Vec<u32>)
    requires
        k >= 1,
    ensures
        digits_value(r@) == digits_value(digits@) / (k as nat),
{
    (BigUint::new(digits.clone()) / k).to_u32_digits()
}

/// Relies on `BigUint::new`, `BigUint % u64` and `BigUint::to_u32_digits`: the
/// remainder of floor division; division by zero panics, which `requires` excludes.
#[verifier::external_body]
fn big_rem(digits: &Vec<u32>, k: u64) -> (r: Vec<u32>)
    requires
        k >= 1,
    ensures
        digits_value(r@) == digits_value(digits@) % (k as nat),
{
    (BigUint::new(digits.clone()) % k).to_u32_digits()
}

/// Relies on `BigUint::new` and `ToPrimitive::to_u64`: the value where a `u64` can
/// hold it, else `None`.
#[verifier::external_body]
fn big_to_u64(digits: &Vec<u32>) -> (r: Option<u64>)
    ensures
        r == (if digits_value(digits@) <= u64::MAX {
            Some(digits_value(digits@) as u64)
        } else {
            None
        }),
{
    BigUint::new(digits.clone()).to_u64()
}

/// Relies on `BigUint::new` and `Zero::is_zero`: whether the value is zero.
#[verifier::external_body]
fn big_is_zero(digits: &Vec<u32>) -> (r: bool)
    ensures
        r == (digits_value(digits@) == 0),
{
    BigUint::new(digits.clone()).is_zero()
}

impl BigCount {
    /// The count `n`.
    pub fn from_u64(n: u64) -> (r: BigCount)
        ensures
            r@ == n,
    {
        let low: u32 = (n % 0x1_0000_0000) as u32;
        let high: u32 = (n / 0x1_0000_0000) as u32;
        proof {
            assert(digits_value(Seq::<u32>::empty()) == 0);
            assert(seq![high].drop_first() =~= Seq::<u32>::empty());
            assert(seq![low].drop_first() =~= Seq::<u32>::empty());
            assert(seq![low, high].drop_first() =~= seq![high]);
            assert(digits_value(seq![high]) == high as nat);
            assert(digits_value(seq![low]) == low as nat);
            assert(digits_value(seq![low, high]) == low + 0x1_0000_0000 * digits_value(seq![high]));
            assert(n == low + 0x1_0000_0000 * high) by (nonlinear_arith)
                requires
                    low == n % 0x1_0000_0000,
                    high == n / 0x1_0000_0000,
            ;
        }
        let digits = if high == 0 {
            if low == 0 {
                Vec::new()
            } else {
                let v = vec![low];
                assert(v@ =~= seq![low]);
                v
            }
        } else {
            let v = vec![low, high];
            assert(v@ =~= seq![low, high]);
            v
        };
        BigCount { digits }
    }

    /// The count that base-2^32 `digits` denote, least significant digit first.
    pub fn from_digits(digits: Vec<u32>) -> (r: BigCount)
        ensures
            r@ == digits_value(digits@),
    {
        BigCount { digits }
    }

    /// Base-2^32 digits of this count, least significant digit first.
    pub fn digits(&self) -> (r: &Vec<u32>)
        ensures
            digits_value(r@) == self@,
    {
        &self.digits
    }
}

impl Counter for BigCount {
    open spec fn value(&self) -> nat {
        self@
    }

    open spec fn holds(n: nat) -> bool {
        true
    }

    proof fn lemma_holds(&self, n: nat) {
    }

    fn zero() -> (r: Self) {
        BigCount::from_digits(Vec::new())
    }

    fn is_zero(&self) -> (r: bool) {
        big_is_zero(&self.digits)
    }

    fn copy_value(&self) -> (r: Self) {
        BigCount { digits: vstd::slice::slice_to_vec(self.digits.as_slice()) }
    }

    fn checked_add_u64(&self, n: u64) -> (r: Option<Self>) {
        Some(BigCount { digits: big_add(&self.digits, n) })
    }

    fn decrement(&self) -> (r: Self) {
        BigCount { digits: big_sub_one(&self.digits) }
    }

    fn div_u64(&self, k: u64) -> (r: Self) {
        BigCount { digits: big_div(&self.digits, k) }
    }

    fn rem_u64(&self, k: u64) -> (r: u64) {
        let rem = big_rem(&self.digits, k);
        match big_to_u64(&rem) {
            Some(v) => v,
            None => {
                assert(false);
                0
            },
        }
    }
}

} // verus!
