//! What issuer and spender exchange and keep while a coin is withdrawn.

use crate::arith::{invertible, lemma_mod_inverse_found};
use crate::coin::PartialCoin;
use crate::number::Number;
use crate::params::Params;
use crate::protocol::WithdrawalView;
use crate::types::BrandsError;
use vstd::prelude::*;

verus! {

/// The spender's state between asking the issuer for a coin and making it:
/// the issuer's commitments, the blinded values derived from them, and the
/// blinding scalars. It is of no use once the coin is spent.
pub struct Withdrawal {
    /// `a`, as the issuer sent it.
    pub a_by_issuer: Number,
    /// `b`, as the issuer sent it.
    pub b_by_issuer: Number,
    /// The digest `c'` of the five blinded values.
    pub challenge_d: Number,
    /// `A`
    pub a: Number,
    /// `B`
    pub b: Number,
    /// `z'`
    pub zd: Number,
    /// `a'`
    pub ad: Number,
    /// `b'`
    pub bd: Number,
    pub partial_coin: PartialCoin,
}

impl View for Withdrawal {
    type V = WithdrawalView;

    open spec fn view(&self) -> WithdrawalView {
        WithdrawalView {
            a_by_issuer: self.a_by_issuer@,
            b_by_issuer: self.b_by_issuer@,
            challenge_d: self.challenge_d@,
            a: self.a@,
            b: self.b@,
            zd: self.zd@,
            ad: self.ad@,
            bd: self.bd@,
            partial_coin: self.partial_coin@,
        }
    }
}

/// The challenge `c` that the spender sends to the issuer during a
/// withdrawal.
pub struct WithdrawalChallenge {
    pub c: Number,
}

impl View for WithdrawalChallenge {
    type V = nat;

    open spec fn view(&self) -> nat {
        self.c@
    }
}

impl WithdrawalChallenge {
    /// The challenge `c = c' / u` modulo `q` for the digest `c'` of a
    /// withdrawal and its blinding scalar `u`. Fails with `NonInvertible`
    /// exactly if `u` has no inverse modulo `q`.
    pub fn new(challenge_d: &Number, u: &Number, params: &Params) -> (result: Result<
        WithdrawalChallenge,
        BrandsError,
    >)
        requires
            params@.usable(),
        ensures
            match result {
                Ok(challenge) => invertible(u@, params@.q) && challenge@
                    == params@.challenge_quotient(challenge_d@, u@),
                Err(e) => e == BrandsError::NonInvertible && !invertible(u@, params@.q),
            },
    {
        match u.modinv(&params.q) {
            Some(inverse) => {
                proof {
                    lemma_mod_inverse_found(u@, inverse@, params.q@);
                }
                // c = cd / u mod q
                Ok(WithdrawalChallenge { c: challenge_d.times(&inverse).modulo(&params.q) })
            },
            None => Err(BrandsError::NonInvertible),
        }
    }
}

/// The issuer's response `r` to a withdrawal challenge, from which the
/// spender makes the coin.
pub struct WithdrawalResponse {
    pub r: Number,
}

impl View for WithdrawalResponse {
    type V = nat;

    open spec fn view(&self) -> nat {
        self.r@
    }
}

/// The commitments `(a, b)` that the issuer sends to open a withdrawal.
pub struct WithdrawalParams {
    pub a: Number,
    pub b: Number,
}

impl View for WithdrawalParams {
    type V = (nat, nat);

    open spec fn view(&self) -> (nat, nat) {
        (self.a@, self.b@)
    }
}

/// The exponent `w` of the issuer's commitments. The issuer keeps it until it
/// answers the one challenge of this withdrawal, and uses it no second time.
pub struct WithdrawalResponseParams {
    pub w: Number,
}

impl View for WithdrawalResponseParams {
    type V = nat;

    open spec fn view(&self) -> nat {
        self.w@
    }
}

} // verus!
