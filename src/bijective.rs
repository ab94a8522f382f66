//! Bijective base-k numeration: the mathematical model of the generated strings.
use vstd::arithmetic::div_mod::{
    lemma_div_is_ordered_by_denominator, lemma_fundamental_div_mod, lemma_mod_bound,
};
use vstd::arithmetic::power::pow;
use vstd::prelude::*;

verus! {

/// The string that counter `n` denotes over `alphabet`, most significant symbol first.
///
/// Digit values run from 1 to k (there is no zero digit), so the symbol at index `i`
/// stands for the digit `i + 1`. Counter 0 denotes the empty string, as does any
/// counter over an empty alphabet.
pub open spec fn encode(alphabet: Seq<char>, n: nat) -> Seq<char>
    decreases n,
    via encode_decreases
{
    if n == 0 || alphabet.len() == 0 {
        seq![]
    } else {
        let d = (n - 1) as nat;
        encode(alphabet, d / alphabet.len()) + seq![alphabet[(d % alphabet.len()) as int]]
    }
}

#[via_fn]
proof fn encode_decreases(alphabet: Seq<char>, n: nat) {
    if n != 0 && alphabet.len() != 0 {
        let d = (n - 1) as int;
        lemma_div_is_ordered_by_denominator(d, 1, alphabet.len() as int);
    }
}

/// The strings emitted by `m` advances of a sequence whose counter starts at `start`.
pub open spec fn emitted(alphabet: Seq<char>, start: nat, m: nat) -> Seq<Seq<char>> {
    Seq::new(m, |i: int| encode(alphabet, start + i as nat + 1))
}

/// How many positive counters denote strings of at most `len` symbols over an
/// alphabet of `k` symbols: k + k^2 + ... + k^len.
pub open spec fn count_up_to_len(k: nat, len: nat) -> nat
    decreases len,
{
    if len == 0 {
        0
    } else {
        k * count_up_to_len(k, (len - 1) as nat) + k
    }
}

/// Facts about one digit step: `n - 1 == k * q + r` with the last symbol taken from `r`.
proof fn lemma_step(alphabet: Seq<char>, n: nat)
    requires
        alphabet.len() >= 1,
        n >= 1,
    ensures
        ({
            let k = alphabet.len();
            let d = (n - 1) as nat;
            &&& d == k * (d / k) + d % k
            &&& d % k < k
            &&& d / k < n
            &&& encode(alphabet, n) == encode(alphabet, d / k) + seq![alphabet[(d % k) as int]]
            &&& encode(alphabet, n).len() == encode(alphabet, d / k).len() + 1
        }),
{
    let k = alphabet.len();
    let d = (n - 1) as nat;
    lemma_fundamental_div_mod(d as int, k as int);
    lemma_mod_bound(d as int, k as int);
    lemma_div_is_ordered_by_denominator(d as int, 1, k as int);
}

/// Distinct positive counters denote distinct strings, over an alphabet without
/// repeated symbols.
pub proof fn lemma_encode_injective(alphabet: Seq<char>, n1: nat, n2: nat)
    requires
        alphabet.len() >= 1,
        alphabet.no_duplicates(),
        n1 >= 1,
        n2 >= 1,
        n1 != n2,
    ensures
        encode(alphabet, n1) != encode(alphabet, n2),
    decreases n1 + n2,
{
    let k = alphabet.len();
    let d1 = (n1 - 1) as nat;
    let d2 = (n2 - 1) as nat;
    let q1 = d1 / k;
    let q2 = d2 / k;
    let r1 = d1 % k;
    let r2 = d2 % k;
    lemma_step(alphabet, n1);
    lemma_step(alphabet, n2);
    let s1 = encode(alphabet, n1);
    let s2 = encode(alphabet, n2);
    let p1 = encode(alphabet, q1);
    let p2 = encode(alphabet, q2);
    if s1 == s2 {
        assert(s1.drop_last() =~= p1);
        assert(s2.drop_last() =~= p2);
        assert(s1.last() == alphabet[r1 as int]);
        assert(s2.last() == alphabet[r2 as int]);
        if q1 == q2 {
            assert(r1 != r2);
        } else if q1 == 0 || q2 == 0 {
            if q1 == 0 {
                lemma_step(alphabet, q2);
            } else {
                lemma_step(alphabet, q1);
            }
        } else {
            lemma_encode_injective(alphabet, q1, q2);
        }
    }
}

/// A string of at most `len` symbols is denoted exactly by the counters up to
/// `count_up_to_len(k, len)`.
proof fn lemma_len_at_most(alphabet: Seq<char>, n: nat, len: nat)
    requires
        alphabet.len() >= 1,
    ensures
        encode(alphabet, n).len() <= len <==> n <= count_up_to_len(alphabet.len(), len),
    decreases len,
{
    let k = alphabet.len();
    if n >= 1 {
        lemma_step(alphabet, n);
        if len >= 1 {
            let d = (n - 1) as nat;
            let q = d / k;
            let r = d % k;
            let c = count_up_to_len(k, (len - 1) as nat);
            lemma_len_at_most(alphabet, q, (len - 1) as nat);
            if q <= c {
                assert(d <= k * c + k - 1) by (nonlinear_arith)
                    requires
                        d == k * q + r,
                        r < k,
                        q <= c,
                ;
            } else {
                assert(d >= k * c + k) by (nonlinear_arith)
                    requires
                        d == k * q + r,
                        q >= c + 1,
                ;
            }
        }
    }
}

/// The length of the encoded string never decreases as the counter grows.
pub proof fn lemma_length_monotonic(alphabet: Seq<char>, n1: nat, n2: nat)
    requires
        alphabet.len() >= 1,
        n1 <= n2,
    ensures
        encode(alphabet, n1).len() <= encode(alphabet, n2).len(),
{
    let len = encode(alphabet, n2).len();
    lemma_len_at_most(alphabet, n2, len);
    lemma_len_at_most(alphabet, n1, len);
}

/// The counters whose strings have exactly `len >= 1` symbols form one contiguous
/// block, `count_up_to_len(k, len - 1) < n <= count_up_to_len(k, len)`, holding
/// exactly `k^len` counters.
pub proof fn lemma_length_block(alphabet: Seq<char>, n: nat, len: nat)
    requires
        alphabet.len() >= 1,
        len >= 1,
    ensures
        encode(alphabet, n).len() == len <==> count_up_to_len(alphabet.len(), (len - 1) as nat)
            < n <= count_up_to_len(alphabet.len(), len),
        count_up_to_len(alphabet.len(), len) - count_up_to_len(alphabet.len(), (len - 1) as nat)
            == pow(alphabet.len() as int, len),
{
    lemma_len_at_most(alphabet, n, len);
    lemma_len_at_most(alphabet, n, (len - 1) as nat);
    lemma_block_size(alphabet.len(), len);
}

proof fn lemma_block_size(k: nat, len: nat)
    requires
        len >= 1,
    ensures
        count_up_to_len(k, len) - count_up_to_len(k, (len - 1) as nat) == pow(k as int, len),
    decreases len,
{
    reveal(pow);
    if len == 1 {
        assert(pow(k as int, 1) == k * pow(k as int, 0));
        assert(count_up_to_len(k, 1) == k * count_up_to_len(k, 0) + k);
        assert(k * 0 == 0 && k * 1 == k) by (nonlinear_arith);
    } else {
        lemma_block_size(k, (len - 1) as nat);
        let a = count_up_to_len(k, len) as int;
        let b = count_up_to_len(k, (len - 1) as nat) as int;
        let c = count_up_to_len(k, (len - 2) as nat) as int;
        let p = pow(k as int, (len - 1) as nat);
        assert(a - b == k * p) by (nonlinear_arith)
            requires
                a == k * b + k,
                b == k * c + k,
                b - c == p,
        ;
        assert(pow(k as int, len) == k * p);
    }
}

/// Resuming at counter `x` and advancing once yields what starting at 0 and
/// advancing `x + 1` times yields last: both are the string of `x + 1`.
pub proof fn lemma_resume(alphabet: Seq<char>, x: nat)
    ensures
        emitted(alphabet, x, 1)[0] == emitted(alphabet, 0, x + 1)[x as int],
        emitted(alphabet, x, 1)[0] == encode(alphabet, x + 1),
{
}

} // verus!
