//! The scheme as mathematics: what each party computes, over natural
//! numbers, and what each check accepts.
//!
//! The executable types of this crate state their contracts in these terms.

use crate::arith::{in_subgroup, is_prime, le_encoding, mod_inverse, mod_pow};
use crate::cryptographics::hash_value;
use vstd::prelude::*;

verus! {

/// The public parameters: the hash key and the group description.
pub struct Group {
    pub key: Seq<u8>,
    pub p: nat,
    pub q: nat,
    pub g: nat,
    pub g1: nat,
    pub g2: nat,
}

/// The five blinding scalars of one coin.
pub struct PartialCoinView {
    pub s: nat,
    pub x1: nat,
    pub x2: nat,
    pub u: nat,
    pub v: nat,
}

/// What the spender holds between asking for a coin and making it.
pub struct WithdrawalView {
    pub a_by_issuer: nat,
    pub b_by_issuer: nat,
    pub challenge_d: nat,
    pub a: nat,
    pub b: nat,
    pub zd: nat,
    pub ad: nat,
    pub bd: nat,
    pub partial_coin: PartialCoinView,
}

/// The seven components of a coin.
pub struct CoinView {
    pub c1: nat,
    pub c2: nat,
    pub c3: nat,
    pub c4: nat,
    pub c5: nat,
    pub c6: nat,
    pub cd: nat,
}

/// A coin with the spender's response to one challenge.
pub struct SpentCoinView {
    pub coin: CoinView,
    pub r1: nat,
    pub r2: nat,
}

/// `a - b` modulo `q`, as its representative in `[0, q)`.
pub open spec fn mod_diff(a: nat, b: nat, q: nat) -> nat {
    ((a - b) % (q as int)) as nat
}

/// The challenge that a receiver derives from its message and a coin: the
/// hash, under the message, of the coin's first two components. It is not
/// reduced.
pub open spec fn coin_challenge(message: Seq<u8>, coin: CoinView) -> nat {
    hash_value(message, seq![le_encoding(coin.c1), le_encoding(coin.c2)])
}

impl Group {
    /// Both moduli are non-zero, so that every operation is defined.
    pub open spec fn usable(self) -> bool {
        self.p > 0 && self.q > 0
    }

    /// `x` generates the subgroup of order `q`.
    pub open spec fn generator(self, x: nat) -> bool {
        1 < x < self.p && in_subgroup(x, self.q, self.p)
    }

    /// The parameters describe a subgroup of prime order `q` of the integers
    /// modulo the safe prime `p = 2q + 1`, with three distinct generators.
    pub open spec fn valid(self) -> bool {
        &&& is_prime(self.p)
        &&& is_prime(self.q)
        &&& self.p == 2 * self.q + 1
        &&& self.q != 2
        &&& self.generator(self.g)
        &&& self.generator(self.g1)
        &&& self.generator(self.g2)
        &&& self.g != self.g1
        &&& self.g != self.g2
        &&& self.g1 != self.g2
    }

    /// The issuer's public identity `h = g^x` for its secret `x`.
    pub open spec fn issuer_identity(self, x: nat) -> nat {
        mod_pow(self.g, x, self.p)
    }

    /// The spender's public identity `i = g1^u1` for its secret `u1`.
    pub open spec fn spender_identity(self, u1: nat) -> nat {
        mod_pow(self.g1, u1, self.p)
    }

    /// The registration id `z = (i g2)^x` that the issuer with secret `x`
    /// gives to the spender with identity `i`.
    pub open spec fn registration_id(self, x: nat, i: nat) -> nat {
        mod_pow(i * self.g2, x, self.p)
    }

    /// The issuer's commitment `a = g^w`.
    pub open spec fn commitment_a(self, w: nat) -> nat {
        mod_pow(self.g, w, self.p)
    }

    /// The issuer's commitment `b = (i g2)^w`.
    pub open spec fn commitment_b(self, i: nat, w: nat) -> nat {
        mod_pow(i * self.g2, w, self.p)
    }

    /// The issuer's response `r = w + c x` modulo `q`.
    pub open spec fn response(self, x: nat, w: nat, c: nat) -> nat {
        (w + c * x) % self.q
    }

    /// The digest that a hash is reduced to: its remainder modulo `p`, not
    /// modulo `q`.
    pub open spec fn digest_of(self, hash: nat) -> nat {
        hash % self.p
    }

    /// The digest that binds the first five components of a coin: their hash
    /// under the scheme key, reduced modulo `p`.
    pub open spec fn coin_digest(self, c1: nat, c2: nat, c3: nat, c4: nat, c5: nat) -> nat {
        self.digest_of(
            hash_value(
                self.key,
                seq![
                    le_encoding(c1),
                    le_encoding(c2),
                    le_encoding(c3),
                    le_encoding(c4),
                    le_encoding(c5),
                ],
            ),
        )
    }

    /// `A = (i g2)^s`.
    pub open spec fn blinded_identity(self, i: nat, s: nat) -> nat {
        mod_pow(i * self.g2, s, self.p)
    }

    /// `B = g1^x1 g2^x2`.
    pub open spec fn blinded_commitment(self, x1: nat, x2: nat) -> nat {
        (mod_pow(self.g1, x1, self.p) * mod_pow(self.g2, x2, self.p)) % self.p
    }

    /// What the spender with identity `i` and registration id `z` derives
    /// from the issuer's commitments `a` and `b` and its blinding scalars.
    pub open spec fn withdrawal(self, i: nat, z: nat, a: nat, b: nat, pc: PartialCoinView)
        -> WithdrawalView {
        let big_a = self.blinded_identity(i, pc.s);
        let big_b = self.blinded_commitment(pc.x1, pc.x2);
        let zd = mod_pow(z, pc.s, self.p);
        let ad = (mod_pow(a, pc.u, self.p) * mod_pow(self.g, pc.v, self.p)) % self.p;
        let bd = (mod_pow(b, pc.s * pc.u, self.p) * mod_pow(big_a, pc.v, self.p)) % self.p;
        WithdrawalView {
            a_by_issuer: a,
            b_by_issuer: b,
            challenge_d: self.coin_digest(big_a, big_b, zd, ad, bd),
            a: big_a,
            b: big_b,
            zd,
            ad,
            bd,
            partial_coin: pc,
        }
    }

    /// The quotient `cd / u` modulo `q`.
    pub open spec fn challenge_quotient(self, cd: nat, u: nat) -> nat {
        (cd * mod_inverse(u, self.q)) % self.q
    }

    /// The challenge `c = c' / u` modulo `q` that the spender sends to the
    /// issuer.
    pub open spec fn withdrawal_challenge(self, wd: WithdrawalView) -> nat {
        self.challenge_quotient(wd.challenge_d, wd.partial_coin.u)
    }

    /// The two equations that an issuer's response `r` to the challenge `c`
    /// has to meet: `(i g2)^r = z^c b` and `g^r = h^c a`.
    pub open spec fn response_valid(
        self,
        i: nat,
        z: nat,
        h: nat,
        wd: WithdrawalView,
        c: nat,
        r: nat,
    ) -> bool {
        &&& mod_pow(i * self.g2, r, self.p) == (mod_pow(z, c, self.p) * wd.b_by_issuer) % self.p
        &&& mod_pow(self.g, r, self.p) == (mod_pow(h, c, self.p) * wd.a_by_issuer) % self.p
    }

    /// The coin that a withdrawal and the issuer's response `r` make.
    pub open spec fn coin(self, wd: WithdrawalView, r: nat) -> CoinView {
        CoinView {
            c1: wd.a,
            c2: wd.b,
            c3: wd.zd,
            c4: wd.ad,
            c5: wd.bd,
            c6: (r * wd.partial_coin.u + wd.partial_coin.v) % self.q,
            cd: wd.challenge_d,
        }
    }

    /// A coin is valid under the issuer identity `h`, given the digest of
    /// its first five components: its first component is not one, `cd` is
    /// that digest, and `c4 h^cd = g^c6` and `c5 c3^cd = c1^c6`.
    pub open spec fn coin_valid_for(self, h: nat, coin: CoinView, digest: nat) -> bool {
        &&& coin.c1 != 1
        &&& coin.cd == digest
        &&& (coin.c4 * mod_pow(h, coin.cd, self.p)) % self.p == mod_pow(self.g, coin.c6, self.p)
        &&& (coin.c5 * mod_pow(coin.c3, coin.cd, self.p)) % self.p == mod_pow(
            coin.c1,
            coin.c6,
            self.p,
        )
    }

    /// A coin is valid under the issuer identity `h`.
    pub open spec fn coin_valid(self, h: nat, coin: CoinView) -> bool {
        self.coin_valid_for(
            h,
            coin,
            self.coin_digest(coin.c1, coin.c2, coin.c3, coin.c4, coin.c5),
        )
    }

    /// The spender's answer to the challenge `d`: `r1 = d u1 s + x1` and
    /// `r2 = d s + x2` modulo `q`.
    pub open spec fn spent_coin(self, u1: nat, coin: CoinView, pc: PartialCoinView, d: nat)
        -> SpentCoinView {
        SpentCoinView {
            coin,
            r1: (d * u1 * pc.s + pc.x1) % self.q,
            r2: (d * pc.s + pc.x2) % self.q,
        }
    }

    /// A spent coin answers the challenge `d`: `c1^d c2 = g1^r1 g2^r2`.
    pub open spec fn spent_coin_valid(self, spent: SpentCoinView, d: nat) -> bool {
        (mod_pow(spent.coin.c1, d, self.p) * spent.coin.c2) % self.p == (mod_pow(
            self.g1,
            spent.r1,
            self.p,
        ) * mod_pow(self.g2, spent.r2, self.p)) % self.p
    }

    /// The difference of the second responses of two spent coins, modulo `q`.
    pub open spec fn response_gap(self, first: SpentCoinView, second: SpentCoinView) -> nat {
        mod_diff(first.r2, second.r2, self.q)
    }

    /// The identity that two answers for one coin give away:
    /// `g1^((r1 - r1') / (r2 - r2'))`, the quotient taken modulo `q`.
    pub open spec fn revealed_identity(self, first: SpentCoinView, second: SpentCoinView) -> nat {
        let exponent = (mod_diff(first.r1, second.r1, self.q) * mod_inverse(
            self.response_gap(first, second),
            self.q,
        )) % self.q;
        mod_pow(self.g1, exponent, self.p)
    }
}

} // verus!
