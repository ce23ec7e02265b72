//! A coin in the forms it takes: the blinding scalars it is made with, the
//! coin itself, and the coin with the answer to a receiver's challenge.

use crate::arith::{invertible, le_encoding, lemma_mod_inverse_found};
use crate::cryptographics::{chunk_views, hash_to_number};
use crate::number::Number;
use crate::params::Params;
use crate::protocol::{coin_challenge, CoinView, PartialCoinView, SpentCoinView};
use crate::types::{BrandsError, Identity};
use crate::withdrawal::Withdrawal;
use vstd::prelude::*;

verus! {

/// The five blinding scalars of a coin that is being withdrawn. A partial
/// coin answers one challenge; answering a second one with it is the double
/// spend that reveals the spender.
pub struct PartialCoin {
    pub s: Number,
    pub x1: Number,
    pub x2: Number,
    pub u: Number,
    pub v: Number,
}

impl View for PartialCoin {
    type V = PartialCoinView;

    open spec fn view(&self) -> PartialCoinView {
        PartialCoinView { s: self.s@, x1: self.x1@, x2: self.x2@, u: self.u@, v: self.v@ }
    }
}

impl Clone for PartialCoin {
    fn clone(&self) -> (pc: Self)
        ensures
            pc@ == self@,
    {
        PartialCoin {
            s: self.s.clone(),
            x1: self.x1.clone(),
            x2: self.x2.clone(),
            u: self.u.clone(),
            v: self.v.clone(),
        }
    }
}

impl From<Withdrawal> for PartialCoin {
    /// Takes the blinding scalars out of a withdrawal, which is used up.
    fn from(w: Withdrawal) -> (pc: Self) {
        w.partial_coin
    }
}

impl vstd::std_specs::convert::FromSpecImpl<Withdrawal> for PartialCoin {
    open spec fn obeys_from_spec() -> bool {
        true
    }

    open spec fn from_spec(w: Withdrawal) -> Self {
        w.partial_coin
    }
}

/// A coin that is ready to be spent.
pub struct Coin {
    pub c1: Number,
    pub c2: Number,
    pub c3: Number,
    pub c4: Number,
    pub c5: Number,
    pub c6: Number,
    pub cd: Number,
}

impl View for Coin {
    type V = CoinView;

    open spec fn view(&self) -> CoinView {
        CoinView {
            c1: self.c1@,
            c2: self.c2@,
            c3: self.c3@,
            c4: self.c4@,
            c5: self.c5@,
            c6: self.c6@,
            cd: self.cd@,
        }
    }
}

impl Clone for Coin {
    fn clone(&self) -> (coin: Self)
        ensures
            coin@ == self@,
    {
        Coin {
            c1: self.c1.clone(),
            c2: self.c2.clone(),
            c3: self.c3.clone(),
            c4: self.c4.clone(),
            c5: self.c5.clone(),
            c6: self.c6.clone(),
            cd: self.cd.clone(),
        }
    }
}

impl PartialEq for Coin {
    /// Two coins are equal exactly if their seven components are.
    fn eq(&self, other: &Self) -> (r: bool) {
        self.c1.same(&other.c1) && self.c2.same(&other.c2) && self.c3.same(&other.c3)
            && self.c4.same(&other.c4) && self.c5.same(&other.c5) && self.c6.same(&other.c6)
            && self.cd.same(&other.cd)
    }
}

impl Eq for Coin {

}

impl vstd::std_specs::cmp::PartialEqSpecImpl for Coin {
    open spec fn obeys_eq_spec() -> bool {
        true
    }

    open spec fn eq_spec(&self, other: &Self) -> bool {
        self@ == other@
    }
}

/// The digest that binds the first five components of a coin: their hash
/// under the scheme key, reduced modulo `p`.
pub fn coin_digest(
    params: &Params,
    c1: &Number,
    c2: &Number,
    c3: &Number,
    c4: &Number,
    c5: &Number,
) -> (digest: Number)
    requires
        params@.usable(),
    ensures
        digest@ == params@.coin_digest(c1@, c2@, c3@, c4@, c5@),
{
    let chunks = vec![
        c1.to_bytes_le(),
        c2.to_bytes_le(),
        c3.to_bytes_le(),
        c4.to_bytes_le(),
        c5.to_bytes_le(),
    ];
    proof {
        assert(chunk_views(chunks@) =~= seq![
            le_encoding(c1@),
            le_encoding(c2@),
            le_encoding(c3@),
            le_encoding(c4@),
            le_encoding(c5@),
        ]);
    }
    let key = params.scheme_key.as_str().as_bytes();
    params.digest_of(&hash_to_number(key, chunks.as_slice()))
}

impl Coin {
    /// Whether the coin is valid under the issuer's identity `h`. A coin
    /// whose first component is one is never valid.
    pub fn verify(&self, h: &Identity, params: &Params) -> (valid: bool)
        requires
            params@.usable(),
        ensures
            valid == params@.coin_valid(h@, self@),
            self@.c1 == 1 ==> !valid,
    {
        if self.c1.same(&Number::from_u64(1)) {
            return false;
        }
        let ver_cd = coin_digest(params, &self.c1, &self.c2, &self.c3, &self.c4, &self.c5);
        self.verify_with_digest(&ver_cd, h, params)
    }

    /// Whether the coin is valid under the issuer's identity `h`, where
    /// `digest` is the digest of its first five components: `c1` is not one,
    /// `cd` is the digest, `c4 h^cd = g^c6` and `c5 c3^cd = c1^c6`.
    pub fn verify_with_digest(&self, digest: &Number, h: &Identity, params: &Params) -> (valid:
        bool)
        requires
            params@.usable(),
        ensures
            valid == params@.coin_valid_for(h@, self@, digest@),
            self@.c1 == 1 ==> !valid,
    {
        if self.c1.same(&Number::from_u64(1)) {
            return false;
        }
        if !self.cd.same(digest) {
            return false;
        }
        // c4 * h^cd = g^c6
        let lhs = self.c4.times(&h.modpow(&self.cd, &params.p)).modulo(&params.p);
        let rhs = params.g.modpow(&self.c6, &params.p);
        if !lhs.same(&rhs) {
            return false;
        }
        // c5 * c3^cd = c1^c6
        let lhs = self.c5.times(&self.c3.modpow(&self.cd, &params.p)).modulo(&params.p);
        let rhs = self.c1.modpow(&self.c6, &params.p);
        lhs.same(&rhs)
    }
}

/// The challenge of a receiver. The spender answers it to show that the coin
/// is its own.
pub struct CoinChallenge(pub Number);

impl View for CoinChallenge {
    type V = nat;

    open spec fn view(&self) -> nat {
        self.0@
    }
}

impl CoinChallenge {
    /// Derives the challenge from the receiver's message and the coin: the
    /// hash, under the message, of the coin's first two components. The
    /// number is not reduced.
    pub fn new(message: &[u8], coin: &Coin) -> (challenge: Self)
        ensures
            challenge@ == coin_challenge(message@, coin@),
    {
        let chunks = vec![coin.c1.to_bytes_le(), coin.c2.to_bytes_le()];
        proof {
            assert(chunk_views(chunks@) =~= seq![le_encoding(coin.c1@), le_encoding(coin.c2@)]);
        }
        CoinChallenge(hash_to_number(message, chunks.as_slice()))
    }
}

/// A coin with the spender's answer `(r1, r2)` to one challenge.
pub struct SpentCoin {
    /// The coin that was spent.
    pub coin: Coin,
    pub r1: Number,
    pub r2: Number,
}

impl View for SpentCoin {
    type V = SpentCoinView;

    open spec fn view(&self) -> SpentCoinView {
        SpentCoinView { coin: self.coin@, r1: self.r1@, r2: self.r2@ }
    }
}

impl PartialEq for SpentCoin {
    /// Two spent coins are equal exactly if they hold the same coin, whatever
    /// the answers are: an honest spender answers for a coin once.
    fn eq(&self, other: &Self) -> (r: bool) {
        self.coin == other.coin
    }
}

impl Eq for SpentCoin {

}

impl vstd::std_specs::cmp::PartialEqSpecImpl for SpentCoin {
    open spec fn obeys_eq_spec() -> bool {
        true
    }

    open spec fn eq_spec(&self, other: &Self) -> bool {
        self@.coin == other@.coin
    }
}

impl SpentCoin {
    /// Whether the answer meets the challenge: `c1^d c2 = g1^r1 g2^r2`.
    pub fn verify(&self, challenge: &CoinChallenge, params: &Params) -> (valid: bool)
        requires
            params@.usable(),
        ensures
            valid == params@.spent_coin_valid(self@, challenge@),
    {
        let lhs = self.coin.c1.modpow(&challenge.0, &params.p).times(&self.coin.c2).modulo(
            &params.p,
        );
        let rhs = params.g1.modpow(&self.r1, &params.p).times(
            &params.g2.modpow(&self.r2, &params.p),
        ).modulo(&params.p);
        lhs.same(&rhs)
    }

    /// The identity that this answer and a second answer for the same coin
    /// give away, where the difference of their second responses has an
    /// inverse modulo `q`; which error stands in the way, where it has none
    /// or the coins differ.
    pub fn try_reveal_identity(&self, double_spent_coin: &SpentCoin, params: &Params) -> (result:
        Result<Identity, BrandsError>)
        requires
            params@.usable(),
        ensures
            match result {
                Ok(identity) => {
                    &&& self@.coin == double_spent_coin@.coin
                    &&& invertible(params@.response_gap(self@, double_spent_coin@), params@.q)
                    &&& identity@ == params@.revealed_identity(self@, double_spent_coin@)
                },
                Err(e) => if self@.coin != double_spent_coin@.coin {
                    e == BrandsError::CoinMismatch
                } else {
                    &&& e == BrandsError::NonInvertible
                    &&& !invertible(params@.response_gap(self@, double_spent_coin@), params@.q)
                },
            },
    {
        if !(self.coin == double_spent_coin.coin) {
            return Err(BrandsError::CoinMismatch);
        }
        let r2_diff = self.r2.minus_mod(&double_spent_coin.r2, &params.q);
        match r2_diff.modinv(&params.q) {
            Some(inverse) => {
                proof {
                    lemma_mod_inverse_found(r2_diff@, inverse@, params.q@);
                }
                let r1_diff = self.r1.minus_mod(&double_spent_coin.r1, &params.q);
                let exponent = r1_diff.times(&inverse).modulo(&params.q);
                Ok(params.g1.modpow(&exponent, &params.p))
            },
            None => Err(BrandsError::NonInvertible),
        }
    }

    /// Given a second answer for the same coin, computes the identity of the
    /// spender who gave both: `g1^((r1 - r1') / (r2 - r2'))`.
    ///
    /// The two spent coins have to hold the same coin, and the second
    /// responses have to differ modulo `q`, which they do where the two
    /// challenges did.
    pub fn reveal_identity(&self, double_spent_coin: &SpentCoin, params: &Params) -> (identity:
        Identity)
        requires
            params@.usable(),
            self@.coin == double_spent_coin@.coin,
            invertible(params@.response_gap(self@, double_spent_coin@), params@.q),
        ensures
            identity@ == params@.revealed_identity(self@, double_spent_coin@),
    {
        let r1_diff = self.r1.minus_mod(&double_spent_coin.r1, &params.q);
        let r2_diff = self.r2.minus_mod(&double_spent_coin.r2, &params.q);
        let inverse = r2_diff.modinv(&params.q).unwrap();
        proof {
            lemma_mod_inverse_found(r2_diff@, inverse@, params.q@);
        }
        let exponent = r1_diff.times(&inverse).modulo(&params.q);
        params.g1.modpow(&exponent, &params.p)
    }
}

} // verus!
