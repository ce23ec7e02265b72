//! The spender's part of the scheme: it withdraws coins from the issuer and
//! pays them to receivers.

use crate::arith::invertible;
use crate::coin::{coin_digest, Coin, CoinChallenge, PartialCoin, SpentCoin};
use crate::cryptographics::random_number;
use crate::number::Number;
use crate::params::Params;
use crate::protocol::Group;
use crate::types::{BrandsError, Identity, RegistrationID};
use crate::withdrawal::{Withdrawal, WithdrawalChallenge, WithdrawalParams, WithdrawalResponse};
use vstd::prelude::*;

verus! {

/// A spender: the public parameters, its public identity `i = g1^u1`, its
/// secret `u1`, and the registration id that an issuer gave it, once it has
/// one.
pub struct Spender {
    /// The public scheme parameters.
    pub params: Params,
    /// Identity of the spender.
    pub i: Identity,
    /// Secret value that the spender uses in spending a coin.
    u1: Number,
    /// The value given by the issuer for proving an issued coin. `None` until
    /// the spender is registered with an issuer.
    z: Option<RegistrationID>,
}

impl Spender {
    /// The public parameters, as mathematics.
    pub closed spec fn group(&self) -> Group {
        self.params@
    }

    /// The public identity `i`.
    pub closed spec fn identity(&self) -> nat {
        self.i@
    }

    /// The secret `u1`.
    pub closed spec fn secret(&self) -> nat {
        self.u1@
    }

    /// The registration id, where the spender has one.
    pub closed spec fn registration(&self) -> Option<nat> {
        match self.z {
            Some(z) => Some(z@),
            None => None,
        }
    }

    /// The parameters are usable and the identity is the one that belongs to
    /// the secret.
    pub open spec fn wf(&self) -> bool {
        &&& self.group().usable()
        &&& self.identity() == self.group().spender_identity(self.secret())
    }

    /// A spender with a freshly drawn secret below `q`, not yet registered.
    pub fn new(params: Params) -> (spender: Self)
        requires
            params@.usable(),
        ensures
            spender.wf(),
            spender.group() == params@,
            spender.secret() < params@.q,
            spender.registration() is None,
    {
        let u1 = random_number(&params.q);
        Spender::with_secret(params, u1)
    }

    /// The spender with the secret `u1`, not yet registered.
    pub fn with_secret(params: Params, u1: Number) -> (spender: Self)
        requires
            params@.usable(),
        ensures
            spender.wf(),
            spender.group() == params@,
            spender.secret() == u1@,
            spender.registration() is None,
    {
        // i = g1^u1 mod p
        let i = params.g1.modpow(&u1, &params.p);
        Spender { params, i, u1, z: None }
    }

    /// Stores the registration id that the issuer gave.
    pub fn set_registration_id(&mut self, registration_id: RegistrationID)
        ensures
            final(self).registration() == Some(registration_id@),
            final(self).secret() == old(self).secret(),
            final(self).group() == old(self).group(),
            final(self).identity() == old(self).identity(),
    {
        self.z = Some(registration_id);
    }

    /// Starts the withdrawal of a coin with the issuer's commitments: draws
    /// the five blinding scalars below `q` and derives the withdrawal and the
    /// challenge for the issuer from them, as `withdraw_with` does.
    ///
    /// Fails with `NotRegistered` exactly if the spender has no registration
    /// id, and with `NonInvertible` if the scalar `u` that was drawn has no
    /// inverse modulo `q`.
    pub fn withdraw(&self, withdrawal_spender_params: WithdrawalParams) -> (result: Result<
        (Withdrawal, WithdrawalChallenge),
        BrandsError,
    >)
        requires
            self.group().usable(),
        ensures
            match result {
                Ok((withdrawal, challenge)) => {
                    let pc = withdrawal@.partial_coin;
                    &&& self.registration() is Some
                    &&& pc.s < self.group().q
                    &&& pc.x1 < self.group().q
                    &&& pc.x2 < self.group().q
                    &&& pc.u < self.group().q
                    &&& pc.v < self.group().q
                    &&& invertible(pc.u, self.group().q)
                    &&& withdrawal@ == self.group().withdrawal(
                        self.identity(),
                        self.registration()->0,
                        withdrawal_spender_params@.0,
                        withdrawal_spender_params@.1,
                        pc,
                    )
                    &&& challenge@ == self.group().withdrawal_challenge(withdrawal@)
                },
                Err(e) => if self.registration() is None {
                    e == BrandsError::NotRegistered
                } else {
                    e == BrandsError::NonInvertible
                },
            },
    {
        if self.z.is_none() {
            return Err(BrandsError::NotRegistered);
        }
        let partial_coin = PartialCoin {
            s: random_number(&self.params.q),
            x1: random_number(&self.params.q),
            x2: random_number(&self.params.q),
            u: random_number(&self.params.q),
            v: random_number(&self.params.q),
        };
        self.withdraw_with(withdrawal_spender_params, partial_coin)
    }

    /// Starts the withdrawal of a coin with the issuer's commitments `(a, b)`
    /// and the given blinding scalars `(s, x1, x2, u, v)`:
    /// `A = (i g2)^s`, `B = g1^x1 g2^x2`, `z' = z^s`, `a' = a^u g^v`,
    /// `b' = b^(s u) A^v`, all modulo `p`, `c'` the digest of these five, and
    /// the challenge `c = c' / u` modulo `q`.
    ///
    /// Fails with `NotRegistered` exactly if the spender has no registration
    /// id, and else with `NonInvertible` exactly if `u` has no inverse modulo
    /// `q`.
    pub fn withdraw_with(
        &self,
        withdrawal_spender_params: WithdrawalParams,
        partial_coin: PartialCoin,
    ) -> (result: Result<(Withdrawal, WithdrawalChallenge), BrandsError>)
        requires
            self.group().usable(),
        ensures
            match result {
                Ok((withdrawal, challenge)) => {
                    &&& self.registration() is Some
                    &&& invertible(partial_coin@.u, self.group().q)
                    &&& withdrawal@ == self.group().withdrawal(
                        self.identity(),
                        self.registration()->0,
                        withdrawal_spender_params@.0,
                        withdrawal_spender_params@.1,
                        partial_coin@,
                    )
                    &&& challenge@ == self.group().withdrawal_challenge(withdrawal@)
                },
                Err(e) => if self.registration() is None {
                    e == BrandsError::NotRegistered
                } else {
                    &&& e == BrandsError::NonInvertible
                    &&& !invertible(partial_coin@.u, self.group().q)
                },
            },
    {
        let z = match &self.z {
            Some(z) => z,
            None => { return Err(BrandsError::NotRegistered); },
        };
        let p = &self.params.p;
        // A = (i * g2)^s
        let a = self.i.times(&self.params.g2).modpow(&partial_coin.s, p);
        // B = g1^x1 * g2^x2
        let b = self.params.g1.modpow(&partial_coin.x1, p).times(
            &self.params.g2.modpow(&partial_coin.x2, p),
        ).modulo(p);
        // zd = z^s
        let zd = z.modpow(&partial_coin.s, p);
        // ad = a^u * g^v
        let ad = withdrawal_spender_params.a.modpow(&partial_coin.u, p).times(
            &self.params.g.modpow(&partial_coin.v, p),
        ).modulo(p);
        // bd = b^(s * u) * A^v
        let bd = withdrawal_spender_params.b.modpow(&partial_coin.s.times(&partial_coin.u), p).times(
            &a.modpow(&partial_coin.v, p),
        ).modulo(p);
        // cd = Hash(A, B, zd, ad, bd)
        let challenge_d = coin_digest(&self.params, &a, &b, &zd, &ad, &bd);
        // c = cd / u mod q
        let challenge = match WithdrawalChallenge::new(&challenge_d, &partial_coin.u, &self.params) {
            Ok(challenge) => challenge,
            Err(e) => { return Err(e); },
        };
        Ok(
            (
                Withdrawal {
                    a_by_issuer: withdrawal_spender_params.a,
                    b_by_issuer: withdrawal_spender_params.b,
                    challenge_d,
                    a,
                    b,
                    zd,
                    ad,
                    bd,
                    partial_coin,
                },
                challenge,
            ),
        )
    }

    /// Whether the issuer's response meets the two equations
    /// `(i g2)^r = z^c b` and `g^r = h^c a`. The check is optional; a coin
    /// can be made without it.
    ///
    /// Fails with `NotRegistered` exactly if the spender has no registration
    /// id.
    pub fn verify_withdrawal_response(
        &self,
        h: &Identity,
        withdrawal: &Withdrawal,
        withdrawal_challenge: &WithdrawalChallenge,
        withdrawal_response: &WithdrawalResponse,
    ) -> (result: Result<bool, BrandsError>)
        requires
            self.group().usable(),
        ensures
            match result {
                Ok(valid) => self.registration() is Some && valid == self.group().response_valid(
                    self.identity(),
                    self.registration()->0,
                    h@,
                    withdrawal@,
                    withdrawal_challenge@,
                    withdrawal_response@,
                ),
                Err(e) => self.registration() is None && e == BrandsError::NotRegistered,
            },
    {
        let z = match &self.z {
            Some(z) => z,
            None => { return Err(BrandsError::NotRegistered); },
        };
        let p = &self.params.p;
        // (i * g2)^r == z^c * b
        let lhs = self.i.times(&self.params.g2).modpow(&withdrawal_response.r, p);
        let rhs = z.modpow(&withdrawal_challenge.c, p).times(&withdrawal.b_by_issuer).modulo(p);
        if !lhs.same(&rhs) {
            return Ok(false);
        }
        // g^r == h^c * a
        let lhs = self.params.g.modpow(&withdrawal_response.r, p);
        let rhs = h.modpow(&withdrawal_challenge.c, p).times(&withdrawal.a_by_issuer).modulo(p);
        Ok(lhs.same(&rhs))
    }

    /// Makes the coin from a withdrawal and the issuer's response `r`: the
    /// five blinded values, `c6 = r u + v` modulo `q`, and the digest.
    pub fn make_coin(&self, withdrawal: &Withdrawal, withdrawal_response: WithdrawalResponse) -> (coin:
        Coin)
        requires
            self.group().usable(),
        ensures
            coin@ == self.group().coin(withdrawal@, withdrawal_response@),
    {
        // c6 = r*u + v mod q
        let c6 = withdrawal_response.r.times(&withdrawal.partial_coin.u).plus(
            &withdrawal.partial_coin.v,
        ).modulo(&self.params.q);
        Coin {
            c1: withdrawal.a.clone(),
            c2: withdrawal.b.clone(),
            c3: withdrawal.zd.clone(),
            c4: withdrawal.ad.clone(),
            c5: withdrawal.bd.clone(),
            c6,
            cd: withdrawal.challenge_d.clone(),
        }
    }

    /// Answers the receiver's challenge `d` for a coin:
    /// `r1 = d u1 s + x1` and `r2 = d s + x2` modulo `q`. The blinding
    /// scalars are taken by value: they are meant to answer one challenge.
    pub fn spend(&self, coin: Coin, partial_coin: PartialCoin, challenge: &CoinChallenge) -> (spent:
        SpentCoin)
        requires
            self.group().usable(),
        ensures
            spent@ == self.group().spent_coin(
                self.secret(),
                coin@,
                partial_coin@,
                challenge@,
            ),
            spent.coin == coin,
    {
        // r1 = d*u1*s + x1 mod q
        let r1 = challenge.0.times(&self.u1).times(&partial_coin.s).plus(&partial_coin.x1).modulo(
            &self.params.q,
        );
        // r2 = d*s + x2 mod q
        let r2 = challenge.0.times(&partial_coin.s).plus(&partial_coin.x2).modulo(&self.params.q);
        SpentCoin { coin, r1, r2 }
    }
}

} // verus!
