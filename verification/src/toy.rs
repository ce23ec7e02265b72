//! Toy parameters: small safe primes found by trial division.
//!
//! They are for tests and demonstrations only. A group this small protects
//! no coin.

use crate::arith::{in_subgroup, is_prime};
use crate::cryptographics::random_in_range;
use crate::number::Number;
use crate::params::Params;
use crate::protocol::Group;
use vstd::arithmetic::div_mod::{lemma_fundamental_div_mod, lemma_mod_multiples_basic};
use vstd::arithmetic::power::pow;
use vstd::prelude::*;
use vstd::utf8::encode_utf8;

verus! {

/// How often the toy constructors draw before they take the smallest choice.
pub const TOY_TRIALS: u64 = 2000;

/// A number in `[d, n)` that divides `n` has a partner below `d` that divides
/// `n` too, where `d * d > n`.
proof fn lemma_small_divisor(n: nat, d: nat, k: nat)
    requires
        d * d > n,
        0 < d <= k < n,
        n % k == 0,
    ensures
        1 < n / k < d,
        n % (n / k) == 0,
{
    let j = n / k;
    lemma_fundamental_div_mod(n as int, k as int);
    assert(n == k * j);
    assert(j > 1) by (nonlinear_arith)
        requires
            n == k * j,
            0 < k < n,
    ;
    assert(j < d) by (nonlinear_arith)
        requires
            n == k * j,
            d <= k,
            d * d > n,
    ;
    assert(n == j * k) by (nonlinear_arith)
        requires
            n == k * j,
    ;
    lemma_mod_multiples_basic(k as int, j as int);
}

/// Whether `n` is prime, by trial division up to its square root.
pub fn is_prime_u64(n: u64) -> (prime: bool)
    ensures
        prime == is_prime(n as nat),
{
    if n < 2 {
        return false;
    }
    let mut d: u64 = 2;
    while d <= n / d
        invariant
            2 <= d <= n,
            forall|k: nat| 1 < k < d ==> #[trigger] (n as nat % k) != 0,
        decreases n - d,
    {
        proof {
            lemma_fundamental_div_mod(n as int, d as int);
            assert(d * 2 <= d * (n / d)) by (nonlinear_arith)
                requires
                    2 <= d <= n / d,
            ;
        }
        if n % d == 0 {
            assert(1 < d < n);
            return false;
        }
        d += 1;
    }
    proof {
        lemma_fundamental_div_mod(n as int, d as int);
        assert(d * d > n) by (nonlinear_arith)
            requires
                n == d * (n / d) + n % d,
                n % d < d,
                n / d < d,
        ;
        assert forall|k: nat| 1 < k < n implies #[trigger] (n as nat % k) != 0 by {
            if k >= d && n as nat % k == 0 {
                lemma_small_divisor(n as nat, d as nat, k);
                let j = n as nat / k;
                assert(n as nat % j != 0);
            }
        }
    }
    true
}

/// The group that six small numbers describe under a key.
pub open spec fn toy_group(scheme_key: Seq<char>, p: u64, q: u64, g: u64, g1: u64, g2: u64)
    -> Group {
    Group {
        key: encode_utf8(scheme_key),
        p: p as nat,
        q: q as nat,
        g: g as nat,
        g1: g1 as nat,
        g2: g2 as nat,
    }
}

/// Whether `g` generates the subgroup of order `q` modulo `p`: it lies
/// strictly between one and `p`, and its `q`-th power is one.
pub fn is_toy_generator(g: u64, p: u64, q: u64) -> (r: bool)
    ensures
        r == (1 < g < p && in_subgroup(g as nat, q as nat, p as nat)),
{
    if g <= 1 || g >= p {
        return false;
    }
    let power = Number::from_u64(g).modpow(&Number::from_u64(q), &Number::from_u64(p));
    power.same(&Number::from_u64(1))
}

/// The smallest safe prime `p = 2q + 1` with `q` above 2 is 7, with `q = 3`.
proof fn lemma_smallest_safe_prime()
    ensures
        is_prime(3),
        is_prime(7),
{
    assert forall|d: nat| 1 < d < 3 implies #[trigger] (3nat % d) != 0 by {
        assert(d == 2);
    }
    assert forall|d: nat| 1 < d < 7 implies #[trigger] (7nat % d) != 0 by {
        assert(d == 2 || d == 3 || d == 4 || d == 5 || d == 6);
    }
}

/// The smallest group with three generators is that of `p = 11` and `q = 5`,
/// in which 3, 4 and 5 have order 5.
proof fn lemma_smallest_toy_group(scheme_key: Seq<char>)
    ensures
        toy_group(scheme_key, 11, 5, 3, 4, 5).valid(),
{
    assert forall|d: nat| 1 < d < 5 implies #[trigger] (5nat % d) != 0 by {
        assert(d == 2 || d == 3 || d == 4);
    }
    assert forall|d: nat| 1 < d < 11 implies #[trigger] (11nat % d) != 0 by {
        assert(d == 2 || d == 3 || d == 4 || d == 5 || d == 6 || d == 7 || d == 8 || d == 9 || d
            == 10);
    }
    reveal_with_fuel(pow, 6);
    assert(pow(3, 5) == 243);
    assert(pow(4, 5) == 1024);
    assert(pow(5, 5) == 3125);
}

/// Draws the prime `q` of a safe prime `p = 2q + 1` below `bound`, with `q`
/// above 2: candidates are drawn from 3 up to half of `bound` until one is
/// such a prime. Where none of `TOY_TRIALS` draws is, the smallest such
/// prime, `q = 3`, is taken. `None` exactly if `bound` is below 8, which
/// leaves room for none.
pub fn random_safe_prime(bound: u64) -> (found: Option<u64>)
    ensures
        found is Some <==> bound >= 8,
        match found {
            Some(q) => is_prime(q as nat) && is_prime((2 * q + 1) as nat) && q != 2 && 2 * q + 1
                < bound,
            None => true,
        },
{
    if bound < 8 {
        return None;
    }
    // the candidates are the q from 3 on with 2q + 1 < bound
    let limit: u64 = bound / 2;
    let mut trials: u64 = TOY_TRIALS;
    while trials > 0
        invariant
            3 < limit,
            2 * limit <= bound,
        decreases trials,
    {
        let q = random_in_range(3, limit);
        if is_prime_u64(q) && is_prime_u64(2 * q + 1) {
            return Some(q);
        }
        trials -= 1;
    }
    proof {
        lemma_smallest_safe_prime();
    }
    Some(3)
}

/// The square of `h` modulo `p`.
pub fn square_mod(h: u64, p: u64) -> (square: u64)
    requires
        p > 0,
    ensures
        square == (h * h) % (p as int),
{
    let wide: u128 = h as u128;
    assert(wide * wide <= 0xffff_ffff_ffff_ffff * 0xffff_ffff_ffff_ffff) by (nonlinear_arith)
        requires
            wide <= 0xffff_ffff_ffff_ffff,
    ;
    ((wide * wide) % (p as u128)) as u64
}

impl Params {
    /// Builds toy parameters from six small numbers, which are taken exactly
    /// if they describe a valid group: `p` and `q` prime, `p = 2q + 1`, `q`
    /// not 2, and `g`, `g1`, `g2` three distinct generators of the subgroup
    /// of order `q`.
    pub fn toy(scheme_key: String, p: u64, q: u64, g: u64, g1: u64, g2: u64) -> (result: Option<
        Params,
    >)
        ensures
            match result {
                Some(params) => params@ == toy_group(scheme_key@, p, q, g, g1, g2)
                    && params@.valid() && params.scheme_key == scheme_key,
                None => !toy_group(scheme_key@, p, q, g, g1, g2).valid(),
            },
    {
        if q == 2 || q > (u64::MAX - 1) / 2 || p != 2 * q + 1 {
            return None;
        }
        if !is_prime_u64(p) || !is_prime_u64(q) {
            return None;
        }
        if !is_toy_generator(g, p, q) || !is_toy_generator(g1, p, q) || !is_toy_generator(
            g2,
            p,
            q,
        ) {
            return None;
        }
        if g == g1 || g == g2 || g1 == g2 {
            return None;
        }
        Some(
            Params {
                scheme_key,
                p: Number::from_u64(p),
                q: Number::from_u64(q),
                g: Number::from_u64(g),
                g1: Number::from_u64(g1),
                g2: Number::from_u64(g2),
            },
        )
    }

    /// Draws toy parameters below `bound`: a safe prime `p = 2q + 1 < bound`
    /// and, as generators, the squares of three numbers drawn from
    /// `[2, p - 1)`, which are drawn again until they are three distinct
    /// generators. Where `TOY_TRIALS` rounds find none, the smallest group is
    /// taken: `p = 11` and `q = 5` with the generators 3, 4 and 5.
    ///
    /// Whatever comes back is a valid group. `None` exactly if `bound` is
    /// below 12, under which no subgroup has three generators.
    pub fn random_toy(scheme_key: String, bound: u64) -> (result: Option<Params>)
        ensures
            result is Some <==> bound >= 12,
            match result {
                Some(params) => params@.valid() && params@.p < bound && params.scheme_key
                    == scheme_key,
                None => true,
            },
    {
        if bound < 12 {
            return None;
        }
        let q: u64 = random_safe_prime(bound).unwrap();
        let p: u64 = 2 * q + 1;
        // modulo 7 only two elements have order 3
        let mut trials: u64 = if q > 3 {
            TOY_TRIALS
        } else {
            0
        };
        while trials > 0
            invariant
                p == 2 * q + 1,
                q >= 3,
                p < bound,
                bound >= 12,
            decreases trials,
        {
            let g = square_mod(random_in_range(2, p - 1), p);
            let g1 = square_mod(random_in_range(2, p - 1), p);
            let g2 = square_mod(random_in_range(2, p - 1), p);
            let drawn = Params::toy(scheme_key.clone(), p, q, g, g1, g2);
            if drawn.is_some() {
                return drawn;
            }
            trials -= 1;
        }
        proof {
            lemma_smallest_toy_group(scheme_key@);
        }
        Params::toy(scheme_key, 11, 5, 3, 4, 5)
    }
}

} // verus!
