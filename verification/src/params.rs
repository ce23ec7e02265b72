//! The public parameters of the scheme.

use crate::arith::{bit_length, decimal_value};
use crate::cryptographics::random_in_range;
use crate::number::Number;
use crate::protocol::Group;
use crate::types::BrandsError;
use vstd::prelude::*;
use vstd::utf8::encode_utf8;

verus! {

/// The public parameters: a key for the hash and the description of the
/// group, `p = 2q + 1` with `p` and `q` prime and three generators of the
/// subgroup of order `q`.
pub struct Params {
    /// Keys the hash that binds a coin.
    pub scheme_key: String,
    pub p: Number,
    pub q: Number,
    pub g: Number,
    pub g1: Number,
    pub g2: Number,
}

impl View for Params {
    type V = Group;

    open spec fn view(&self) -> Group {
        Group {
            key: encode_utf8(self.scheme_key@),
            p: self.p@,
            q: self.q@,
            g: self.g@,
            g1: self.g1@,
            g2: self.g2@,
        }
    }
}

impl Clone for Params {
    fn clone(&self) -> (params: Self)
        ensures
            params@ == self@,
            params.scheme_key == self.scheme_key,
    {
        Params {
            scheme_key: self.scheme_key.clone(),
            p: self.p.clone(),
            q: self.q.clone(),
            g: self.g.clone(),
            g1: self.g1.clone(),
            g2: self.g2.clone(),
        }
    }
}

/// The group that five decimal strings describe under a key, where each of
/// them denotes a number.
pub open spec fn group_of_decimals(
    scheme_key: Seq<char>,
    p: Seq<char>,
    q: Seq<char>,
    g: Seq<char>,
    g1: Seq<char>,
    g2: Seq<char>,
) -> Option<Group> {
    if decimal_value(p) is Some && decimal_value(q) is Some && decimal_value(g) is Some
        && decimal_value(g1) is Some && decimal_value(g2) is Some {
        Some(
            Group {
                key: encode_utf8(scheme_key),
                p: decimal_value(p)->0,
                q: decimal_value(q)->0,
                g: decimal_value(g)->0,
                g1: decimal_value(g1)->0,
                g2: decimal_value(g2)->0,
            },
        )
    } else {
        None
    }
}

/// The parameters that a group's moduli and three candidate generators make,
/// where the candidates are pairwise distinct.
pub open spec fn group_of_candidates(
    scheme_key: Seq<char>,
    p: nat,
    q: nat,
    g: nat,
    g1: nat,
    g2: nat,
) -> Option<Group> {
    if g != g1 && g != g2 && g1 != g2 {
        Some(Group { key: encode_utf8(scheme_key), p, q, g, g1, g2 })
    } else {
        None
    }
}

impl Params {
    /// Builds parameters from decimal strings. Nothing is asked of the
    /// numbers: whether they describe a group is not looked at. Fails with
    /// `Parse` exactly if one of the strings is not a decimal number.
    pub fn from_str(scheme_key: String, p: &str, q: &str, g: &str, g1: &str, g2: &str) -> (result:
        Result<Params, BrandsError>)
        ensures
            match result {
                Ok(params) => group_of_decimals(scheme_key@, p@, q@, g@, g1@, g2@) == Some(params@)
                    && params.scheme_key == scheme_key,
                Err(e) => e == BrandsError::Parse && group_of_decimals(
                    scheme_key@,
                    p@,
                    q@,
                    g@,
                    g1@,
                    g2@,
                ) is None,
            },
    {
        let p = match Number::parse_decimal(p) {
            Ok(n) => n,
            Err(_) => { return Err(BrandsError::Parse); },
        };
        let q = match Number::parse_decimal(q) {
            Ok(n) => n,
            Err(_) => { return Err(BrandsError::Parse); },
        };
        let g = match Number::parse_decimal(g) {
            Ok(n) => n,
            Err(_) => { return Err(BrandsError::Parse); },
        };
        let g1 = match Number::parse_decimal(g1) {
            Ok(n) => n,
            Err(_) => { return Err(BrandsError::Parse); },
        };
        let g2 = match Number::parse_decimal(g2) {
            Ok(n) => n,
            Err(_) => { return Err(BrandsError::Parse); },
        };
        Ok(Params { scheme_key, p, q, g, g1, g2 })
    }

    /// Draws the bit length of a candidate generator for the modulus `p`:
    /// some length from 2 up to, and without, the bit length of `p`. `None`
    /// exactly if `p` has fewer than three bits, so that there is no such
    /// length.
    pub fn generator_bits(p: &Number) -> (bits: Option<u64>)
        ensures
            bits is Some <==> bit_length(p@) > 2,
            bits is Some ==> 2 <= bits->0 < bit_length(p@),
    {
        let upper = p.bits();
        if upper > 2 {
            Some(random_in_range(2, upper))
        } else {
            None
        }
    }

    /// Builds parameters from the moduli `p` and `q` of a Diffie-Hellman
    /// group and three candidate generators that were drawn for it. The
    /// candidates are taken exactly if they are pairwise distinct; otherwise
    /// the result is `None`, and new candidates have to be drawn.
    pub fn from_dh_group(
        scheme_key: String,
        p: Number,
        q: Number,
        g: Number,
        g1: Number,
        g2: Number,
    ) -> (result: Option<Params>)
        ensures
            match result {
                Some(params) => group_of_candidates(scheme_key@, p@, q@, g@, g1@, g2@) == Some(
                    params@,
                ) && params.scheme_key == scheme_key,
                None => group_of_candidates(scheme_key@, p@, q@, g@, g1@, g2@) is None,
            },
    {
        if !g.same(&g1) && !g.same(&g2) && !g1.same(&g2) {
            Some(Params { scheme_key, p, q, g, g1, g2 })
        } else {
            None
        }
    }

    /// The digest that a hash is reduced to: its remainder modulo `p`.
    pub fn digest_of(&self, hash: &Number) -> (digest: Number)
        requires
            self@.usable(),
        ensures
            digest@ == self@.digest_of(hash@),
    {
        hash.modulo(&self.p)
    }

    /// Whether both moduli are non-zero, which is what every operation of the
    /// scheme needs of its parameters.
    pub fn usable(&self) -> (r: bool)
        ensures
            r == self@.usable(),
    {
        !self.p.is_zero() && !self.q.is_zero()
    }
}

} // verus!
