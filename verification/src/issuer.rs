//! The issuer's part of the scheme: it registers spenders and signs coins
//! blindly.

use crate::cryptographics::random_number;
use crate::number::Number;
use crate::params::Params;
use crate::protocol::Group;
use crate::types::{Identity, RegistrationID};
use crate::withdrawal::{
    WithdrawalChallenge, WithdrawalParams, WithdrawalResponse, WithdrawalResponseParams,
};
use vstd::prelude::*;

verus! {

/// A coin issuer: the public parameters, its public identity `h = g^x` and
/// its secret key `x`.
pub struct Issuer {
    /// The public scheme parameters.
    pub params: Params,
    /// Identity of the issuer.
    pub h: Identity,
    /// The secret key of the issuer.
    x: Number,
}

impl Issuer {
    /// The public parameters, as mathematics.
    pub closed spec fn group(&self) -> Group {
        self.params@
    }

    /// The public identity `h`.
    pub closed spec fn identity(&self) -> nat {
        self.h@
    }

    /// The secret key `x`.
    pub closed spec fn secret(&self) -> nat {
        self.x@
    }

    /// The parameters are usable and the identity is the one that belongs to
    /// the secret key.
    pub open spec fn wf(&self) -> bool {
        &&& self.group().usable()
        &&& self.identity() == self.group().issuer_identity(self.secret())
    }

    /// An issuer with a freshly drawn secret key below `q`.
    pub fn new(params: Params) -> (issuer: Self)
        requires
            params@.usable(),
        ensures
            issuer.wf(),
            issuer.group() == params@,
            issuer.secret() < params@.q,
    {
        let x = random_number(&params.q);
        Issuer::with_secret(params, x)
    }

    /// The issuer with the secret key `x`.
    pub fn with_secret(params: Params, x: Number) -> (issuer: Self)
        requires
            params@.usable(),
        ensures
            issuer.wf(),
            issuer.group() == params@,
            issuer.secret() == x@,
    {
        // h = g^x
        let h = params.g.modpow(&x, &params.p);
        Issuer { params, h, x }
    }

    /// Opens an account for the spender with identity `i` and returns its
    /// registration id `z = (i g2)^x`.
    ///
    /// The issuer has to know by other means that `i` is the identity of the
    /// one who asks: a spender who registers under a made-up identity can
    /// spend twice and not be found.
    pub fn register(&self, i: &Identity) -> (z: RegistrationID)
        requires
            self.group().usable(),
        ensures
            z@ == self.group().registration_id(self.secret(), i@),
    {
        // z = (i * g2)^x
        i.times(&self.params.g2).modpow(&self.x, &self.params.p)
    }

    /// Opens the withdrawal of one coin by the spender with identity `i`:
    /// draws `w` below `q` and returns the commitments `a = g^w` and
    /// `b = (i g2)^w` for the spender, and `w` for the issuer's response.
    pub fn setup_withdrawal_params(&self, i: &Identity) -> (opened: (
        WithdrawalParams,
        WithdrawalResponseParams,
    ))
        requires
            self.group().usable(),
        ensures
            opened.0@ == (
                self.group().commitment_a(opened.1@),
                self.group().commitment_b(i@, opened.1@),
            ),
            opened.1@ < self.group().q,
    {
        let w = random_number(&self.params.q);
        self.commit(i, w)
    }

    /// The commitments `a = g^w` and `b = (i g2)^w` for a given `w`, and `w`
    /// with them.
    pub fn commit(&self, i: &Identity, w: Number) -> (opened: (
        WithdrawalParams,
        WithdrawalResponseParams,
    ))
        requires
            self.group().usable(),
        ensures
            opened.0@ == (self.group().commitment_a(w@), self.group().commitment_b(i@, w@)),
            opened.1@ == w@,
    {
        // a = g^w
        let a = self.params.g.modpow(&w, &self.params.p);
        // b = (i * g2)^w
        let b = i.times(&self.params.g2).modpow(&w, &self.params.p);
        (WithdrawalParams { a, b }, WithdrawalResponseParams { w })
    }

    /// The response `r = w + c x` modulo `q` to the spender's challenge. It
    /// takes `w` by value: one `w` answers one challenge.
    pub fn withdrawal_response(
        &self,
        withdrawal: WithdrawalResponseParams,
        challenge: &WithdrawalChallenge,
    ) -> (response: WithdrawalResponse)
        requires
            self.group().usable(),
        ensures
            response@ == self.group().response(self.secret(), withdrawal@, challenge@),
    {
        // r = w + c*x mod q
        let r = withdrawal.w.plus(&challenge.c.times(&self.x)).modulo(&self.params.q);
        WithdrawalResponse { r }
    }
}

} // verus!
