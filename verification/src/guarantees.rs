//! What the scheme guarantees when every party follows it: honest coins and
//! honest answers pass their checks, and two answers for one coin give the
//! spender away.

use crate::arith::{
    congruent, in_subgroup, invertible, is_inverse, is_prime, lemma_congruent_add,
    lemma_congruent_mod, lemma_congruent_mul, lemma_congruent_sub, lemma_mod_inverse,
    lemma_mod_pow_add, lemma_mod_pow_of_power, lemma_mod_pow_of_product, lemma_prime_invertible,
    lemma_prime_product_nonzero, lemma_subgroup_exponent, lemma_subgroup_power,
    lemma_subgroup_product, mod_inverse, mod_pow,
};
use crate::protocol::{mod_diff, CoinView, Group, PartialCoinView};
use vstd::arithmetic::div_mod::*;
use vstd::arithmetic::mul::*;
use vstd::prelude::*;

verus! {

/// For a base of the subgroup, a secret `x`, a commitment exponent `w` and
/// any challenge `c`, the response `w + c x` opens the commitment:
/// `base^r = (base^x)^c base^w`.
pub proof fn lemma_response_opens(base: nat, x: nat, w: nat, c: nat, q: nat, p: nat)
    requires
        p > 1,
        q > 0,
        in_subgroup(base, q, p),
    ensures
        mod_pow(base, (w + c * x) % q, p) == (mod_pow(mod_pow(base, x, p), c, p) * mod_pow(
            base,
            w,
            p,
        )) % p,
{
    lemma_congruent_mod((w + c * x) as int, q as int);
    lemma_subgroup_exponent(base, (w + c * x) % q, w + c * x, q, p);
    lemma_mod_pow_add(base, w, c * x, p);
    lemma_mod_pow_of_power(base, x, c, p);
    lemma_mul_is_commutative(x as int, c as int);
    lemma_mul_is_commutative(
        mod_pow(base, w, p) as int,
        mod_pow(base, c * x, p) as int,
    );
}

/// The exponents of a blinded coin agree modulo `q`: with `c = cd / u` and
/// `r = w + c x`, `r u + v` is `w u + v + x cd`.
proof fn lemma_blinded_exponent(w: nat, x: nat, u: nat, v: nat, cd: nat, uinv: nat, q: nat)
    requires
        is_inverse(u, uinv, q),
    ensures
        congruent(
            ((((w + ((cd * uinv) % q) * x) % q) * u + v) % q) as int,
            (w * u + v + x * cd) as int,
            q as int,
        ),
{
    let qi = q as int;
    let c = (cd * uinv) % q;
    let r = (w + c * x) % q;
    lemma_congruent_mod((cd * uinv) as int, qi);
    lemma_congruent_mul(c as int, (cd * uinv) as int, x as int, x as int, qi);
    lemma_congruent_add(w as int, w as int, (c * x) as int, (cd * uinv * x) as int, qi);
    lemma_congruent_mod((w + c * x) as int, qi);
    assert(congruent(r as int, (w + cd * uinv * x) as int, qi));
    lemma_congruent_mul(r as int, (w + cd * uinv * x) as int, u as int, u as int, qi);
    assert((w + cd * uinv * x) * u == w * u + (u * uinv) * (x * cd)) by (nonlinear_arith);
    assert(congruent((u * uinv) as int, 1, qi));
    lemma_congruent_mul((u * uinv) as int, 1, (x * cd) as int, (x * cd) as int, qi);
    assert(1 * (x * cd) == x * cd);
    lemma_congruent_add(
        (w * u) as int,
        (w * u) as int,
        ((u * uinv) * (x * cd)) as int,
        (x * cd) as int,
        qi,
    );
    assert(congruent((r * u) as int, (w * u + x * cd) as int, qi));
    lemma_congruent_add((r * u) as int, (w * u + x * cd) as int, v as int, v as int, qi);
    lemma_congruent_mod((r * u + v) as int, qi);
}

/// The equation that a blinded signature meets over any base of the
/// subgroup: with `c = cd / u`, `r = w + c x` and `c6 = r u + v`,
/// `(base^w)^u base^v (base^x)^cd = base^c6`.
pub proof fn lemma_blinded_signature(
    base: nat,
    x: nat,
    w: nat,
    u: nat,
    v: nat,
    cd: nat,
    uinv: nat,
    q: nat,
    p: nat,
)
    requires
        p > 1,
        in_subgroup(base, q, p),
        is_inverse(u, uinv, q),
    ensures
        ({
            let c = (cd * uinv) % q;
            let r = (w + c * x) % q;
            let c6 = (r * u + v) % q;
            let blinded = (mod_pow(mod_pow(base, w, p), u, p) * mod_pow(base, v, p)) % p;
            (blinded * mod_pow(mod_pow(base, x, p), cd, p)) % p == mod_pow(base, c6, p)
        }),
{
    let c = (cd * uinv) % q;
    let r = (w + c * x) % q;
    let c6 = (r * u + v) % q;
    lemma_mod_pow_of_power(base, w, u, p);
    lemma_mod_pow_add(base, w * u, v, p);
    lemma_mod_pow_of_power(base, x, cd, p);
    lemma_mod_pow_add(base, w * u + v, x * cd, p);
    lemma_blinded_exponent(w, x, u, v, cd, uinv, q);
    lemma_subgroup_exponent(base, c6, w * u + v + x * cd, q, p);
}

/// An honest answer to a challenge `d` meets the receiver's equation:
/// `A^d B = g1^r1 g2^r2`.
pub proof fn lemma_answer_opens(
    g1: nat,
    g2: nat,
    u1: nat,
    s: nat,
    x1: nat,
    x2: nat,
    d: nat,
    q: nat,
    p: nat,
)
    requires
        p > 1,
        q > 0,
        in_subgroup(g1, q, p),
        in_subgroup(g2, q, p),
    ensures
        ({
            let i = mod_pow(g1, u1, p);
            let big_a = mod_pow(i * g2, s, p);
            let big_b = (mod_pow(g1, x1, p) * mod_pow(g2, x2, p)) % p;
            let r1 = (d * u1 * s + x1) % q;
            let r2 = (d * s + x2) % q;
            (mod_pow(big_a, d, p) * big_b) % p == (mod_pow(g1, r1, p) * mod_pow(g2, r2, p)) % p
        }),
{
    let pi = p as int;
    let i = mod_pow(g1, u1, p);
    let big_a = mod_pow(i * g2, s, p);
    let r1 = (d * u1 * s + x1) % q;
    let r2 = (d * s + x2) % q;
    let e1 = u1 * (s * d);
    let e2 = s * d;
    let pp = mod_pow(g1, e1, p);
    let qq = mod_pow(g2, e2, p);
    let rr = mod_pow(g1, x1, p);
    let ss = mod_pow(g2, x2, p);
    // A^d = g1^(u1 s d) g2^(s d)
    lemma_mod_pow_of_power(i * g2, s, d, p);
    lemma_mod_pow_of_product(i, g2, e2, p);
    lemma_mod_pow_of_power(g1, u1, e2, p);
    assert(mod_pow(big_a, d, p) == (pp * qq) % p);
    // g1^r1 = g1^(u1 s d) g1^x1 and g2^r2 = g2^(s d) g2^x2
    assert(d * u1 * s == u1 * (s * d)) by (nonlinear_arith);
    assert(d * s == s * d) by (nonlinear_arith);
    lemma_congruent_mod((e1 + x1) as int, q as int);
    lemma_subgroup_exponent(g1, r1, e1 + x1, q, p);
    lemma_mod_pow_add(g1, e1, x1, p);
    lemma_congruent_mod((e2 + x2) as int, q as int);
    lemma_subgroup_exponent(g2, r2, e2 + x2, q, p);
    lemma_mod_pow_add(g2, e2, x2, p);
    assert(mod_pow(g1, r1, p) == (pp * rr) % p);
    assert(mod_pow(g2, r2, p) == (qq * ss) % p);
    lemma_mul_mod_noop((pp * qq) as int, (rr * ss) as int, pi);
    lemma_mul_mod_noop((pp * rr) as int, (qq * ss) as int, pi);
    assert((pp * qq) * (rr * ss) == (pp * rr) * (qq * ss)) by (nonlinear_arith);
}

/// Two honest answers for one coin, to challenges that differ modulo the
/// prime `q`, give the spender's secret away: the quotient of the
/// differences of the answers is `u1`, so `g1` raised to it is `g1^u1`.
pub proof fn lemma_answers_reveal(
    g1: nat,
    u1: nat,
    s: nat,
    x1: nat,
    x2: nat,
    d1: nat,
    d2: nat,
    q: nat,
    p: nat,
)
    requires
        p > 1,
        is_prime(q),
        in_subgroup(g1, q, p),
        !congruent(d1 as int, d2 as int, q as int),
        s % q != 0,
    ensures
        ({
            let gap1 = mod_diff((d1 * u1 * s + x1) % q, (d2 * u1 * s + x1) % q, q);
            let gap2 = mod_diff((d1 * s + x2) % q, (d2 * s + x2) % q, q);
            &&& invertible(gap2, q)
            &&& mod_pow(g1, (gap1 * mod_inverse(gap2, q)) % q, p) == mod_pow(g1, u1, p)
        }),
{
    let qi = q as int;
    let r1 = (d1 * u1 * s + x1) % q;
    let t1 = (d2 * u1 * s + x1) % q;
    let r2 = (d1 * s + x2) % q;
    let t2 = (d2 * s + x2) % q;
    let gap1 = mod_diff(r1, t1, q);
    let gap2 = mod_diff(r2, t2, q);
    let step = (d1 - d2) * s;
    // gap2 = (d1 - d2) s and gap1 = u1 (d1 - d2) s, modulo q
    lemma_congruent_mod((d1 * s + x2) as int, qi);
    lemma_congruent_mod((d2 * s + x2) as int, qi);
    lemma_congruent_sub(r2 as int, (d1 * s + x2) as int, t2 as int, (d2 * s + x2) as int, qi);
    lemma_congruent_mod(r2 - t2, qi);
    assert((d1 * s + x2) - (d2 * s + x2) == step) by (nonlinear_arith)
        requires
            step == (d1 - d2) * s,
    ;
    assert(congruent(gap2 as int, step, qi));
    lemma_congruent_mod((d1 * u1 * s + x1) as int, qi);
    lemma_congruent_mod((d2 * u1 * s + x1) as int, qi);
    lemma_congruent_sub(
        r1 as int,
        (d1 * u1 * s + x1) as int,
        t1 as int,
        (d2 * u1 * s + x1) as int,
        qi,
    );
    lemma_congruent_mod(r1 - t1, qi);
    assert((d1 * u1 * s + x1) - (d2 * u1 * s + x1) == u1 * step) by (nonlinear_arith)
        requires
            step == (d1 - d2) * s,
    ;
    assert(congruent(gap1 as int, u1 * step, qi));
    // the gap is not zero modulo q, so it has an inverse
    lemma_mod_equivalence(d1 as int, d2 as int, qi);
    lemma_prime_product_nonzero(d1 - d2, s as int, q);
    lemma_prime_invertible(gap2, q);
    lemma_mod_inverse(gap2, q);
    let inv = mod_inverse(gap2, q);
    // gap1 / gap2 = u1, modulo q
    lemma_congruent_mul(u1 as int, u1 as int, step, gap2 as int, qi);
    lemma_congruent_mul(gap1 as int, (u1 * gap2) as int, inv as int, inv as int, qi);
    assert((u1 * gap2) * inv == u1 * (gap2 * inv)) by (nonlinear_arith);
    lemma_small_mod(1, q);
    lemma_congruent_mul(u1 as int, u1 as int, (gap2 * inv) as int, 1, qi);
    assert(u1 * 1 == u1);
    lemma_congruent_mod((gap1 * inv) as int, qi);
    assert(congruent(((gap1 * inv) % q) as int, u1 as int, qi));
    lemma_subgroup_exponent(g1, (gap1 * inv) % q, u1, q, p);
}

/// In a valid group the base `i g2` that the issuer signs lies in the
/// subgroup, for every spender identity `i = g1^u1`.
pub proof fn lemma_signed_base(gp: Group, u1: nat)
    requires
        gp.valid(),
    ensures
        in_subgroup(gp.spender_identity(u1) * gp.g2, gp.q, gp.p),
{
    lemma_subgroup_power(gp.g1, u1, gp.q, gp.p);
    lemma_subgroup_product(gp.spender_identity(u1), gp.g2, gp.q, gp.p);
}

/// The issuer's response to an honest withdrawal passes the spender's check:
/// for every issuer secret `x`, spender secret `u1`, commitment exponent `w`
/// and blinding scalars, `response_valid` holds of the response
/// `r = w + c x` to the spender's challenge `c`.
pub proof fn law_honest_response_verifies(gp: Group, x: nat, u1: nat, w: nat, pc: PartialCoinView)
    requires
        gp.valid(),
    ensures
        ({
            let h = gp.issuer_identity(x);
            let i = gp.spender_identity(u1);
            let z = gp.registration_id(x, i);
            let wd = gp.withdrawal(i, z, gp.commitment_a(w), gp.commitment_b(i, w), pc);
            let c = gp.withdrawal_challenge(wd);
            gp.response_valid(i, z, h, wd, c, gp.response(x, w, c))
        }),
{
    let i = gp.spender_identity(u1);
    let z = gp.registration_id(x, i);
    let wd = gp.withdrawal(i, z, gp.commitment_a(w), gp.commitment_b(i, w), pc);
    let c = gp.withdrawal_challenge(wd);
    lemma_signed_base(gp, u1);
    lemma_response_opens(i * gp.g2, x, w, c, gp.q, gp.p);
    lemma_response_opens(gp.g, x, w, c, gp.q, gp.p);
}

/// A coin made by the honest withdrawal protocol is valid: for every issuer
/// secret `x`, spender secret `u1`, commitment exponent `w` and blinding
/// scalars of which `u` has an inverse modulo `q`, as it has in every
/// withdrawal that succeeds, the coin made from the issuer's response passes
/// `coin_valid`, unless its first component `(i g2)^s` is one, which the
/// check refuses.
pub proof fn law_honest_coin_verifies(gp: Group, x: nat, u1: nat, w: nat, pc: PartialCoinView)
    requires
        gp.valid(),
        invertible(pc.u, gp.q),
        gp.blinded_identity(gp.spender_identity(u1), pc.s) != 1,
    ensures
        ({
            let h = gp.issuer_identity(x);
            let i = gp.spender_identity(u1);
            let z = gp.registration_id(x, i);
            let wd = gp.withdrawal(i, z, gp.commitment_a(w), gp.commitment_b(i, w), pc);
            let c = gp.withdrawal_challenge(wd);
            gp.coin_valid(h, gp.coin(wd, gp.response(x, w, c)))
        }),
{
    let p = gp.p;
    let q = gp.q;
    let i = gp.spender_identity(u1);
    let base = i * gp.g2;
    let z = gp.registration_id(x, i);
    let b = gp.commitment_b(i, w);
    let wd = gp.withdrawal(i, z, gp.commitment_a(w), b, pc);
    let cd = wd.challenge_d;
    lemma_mod_inverse(pc.u, q);
    let uinv = mod_inverse(pc.u, q);
    // c4 h^cd = g^c6
    lemma_blinded_signature(gp.g, x, w, pc.u, pc.v, cd, uinv, q, p);
    // c5 c3^cd = c1^c6, an equation over the base c1 = (i g2)^s
    lemma_signed_base(gp, u1);
    lemma_subgroup_power(base, pc.s, q, p);
    lemma_blinded_signature(wd.a, x, w, pc.u, pc.v, cd, uinv, q, p);
    assert(mod_pow(z, pc.s, p) == mod_pow(wd.a, x, p)) by {
        lemma_mod_pow_of_power(base, x, pc.s, p);
        lemma_mod_pow_of_power(base, pc.s, x, p);
        lemma_mul_is_commutative(x as int, pc.s as int);
    }
    assert(mod_pow(b, pc.s * pc.u, p) == mod_pow(mod_pow(wd.a, w, p), pc.u, p)) by {
        lemma_mod_pow_of_power(base, w, pc.s * pc.u, p);
        lemma_mod_pow_of_power(base, pc.s, w, p);
        lemma_mod_pow_of_power(wd.a, w, pc.u, p);
        lemma_mod_pow_of_power(base, pc.s, w * pc.u, p);
        assert(w * (pc.s * pc.u) == pc.s * (w * pc.u)) by (nonlinear_arith);
    }
}

/// An honest answer passes the receiver's check: for every coin that the
/// spender with secret `u1` makes from a withdrawal with its blinding
/// scalars, whatever the issuer sent, and for every challenge `d`,
/// `spent_coin_valid` holds of the spender's answer.
pub proof fn law_honest_spend_verifies(
    gp: Group,
    u1: nat,
    z: nat,
    a: nat,
    b: nat,
    pc: PartialCoinView,
    r: nat,
    d: nat,
)
    requires
        gp.valid(),
    ensures
        ({
            let wd = gp.withdrawal(gp.spender_identity(u1), z, a, b, pc);
            gp.spent_coin_valid(gp.spent_coin(u1, gp.coin(wd, r), pc, d), d)
        }),
{
    lemma_answer_opens(gp.g1, gp.g2, u1, pc.s, pc.x1, pc.x2, d, gp.q, gp.p);
}

/// Spending one coin twice reveals the spender: for two honest answers for
/// the same coin, to challenges that differ modulo `q`, and a blinding scalar
/// `s` that is not a multiple of `q`, the difference of the second responses
/// has an inverse and `revealed_identity` is the spender's identity
/// `g1^u1`.
pub proof fn law_double_spend_reveals_identity(
    gp: Group,
    u1: nat,
    z: nat,
    a: nat,
    b: nat,
    pc: PartialCoinView,
    r: nat,
    d1: nat,
    d2: nat,
)
    requires
        gp.valid(),
        d1 % gp.q != d2 % gp.q,
        pc.s % gp.q != 0,
    ensures
        ({
            let wd = gp.withdrawal(gp.spender_identity(u1), z, a, b, pc);
            let coin = gp.coin(wd, r);
            let first = gp.spent_coin(u1, coin, pc, d1);
            let second = gp.spent_coin(u1, coin, pc, d2);
            &&& invertible(gp.response_gap(first, second), gp.q)
            &&& gp.revealed_identity(first, second) == gp.spender_identity(u1)
        }),
{
    lemma_answers_reveal(gp.g1, u1, pc.s, pc.x1, pc.x2, d1, d2, gp.q, gp.p);
}

/// Answers are linked by their coin alone: two spent coins hold the same coin
/// exactly if the coins that were spent are the same, whoever spent them and
/// whatever the challenges were.
pub proof fn law_spent_coins_differ_with_their_coins(
    gp: Group,
    u1: nat,
    coin_a: CoinView,
    pc_a: PartialCoinView,
    d_a: nat,
    coin_b: CoinView,
    pc_b: PartialCoinView,
    d_b: nat,
)
    ensures
        (gp.spent_coin(u1, coin_a, pc_a, d_a).coin == gp.spent_coin(u1, coin_b, pc_b, d_b).coin)
            <==> coin_a == coin_b,
{
}

} // verus!
