//! Non-negative integers of arbitrary size.
//!
//! A [`Number`] holds its value as little-endian bytes; the arithmetic on it
//! is done by `num_bigint::BigUint`, behind functions whose contracts state
//! the result as a natural number.

use crate::arith::{
    bit_length, decimal_value, invertible, is_inverse, le_encoding, le_value,
    lemma_le_encoding_of_trimmed, lemma_le_encoding_value, lemma_le_value_push,
    lemma_le_value_trailing_zero, mod_pow,
};
use crate::protocol::mod_diff;
use num_bigint::{BigUint, ParseBigIntError};
use std::str::FromStr;
use vstd::arithmetic::div_mod::{
    lemma_add_mod_noop, lemma_mod_bound, lemma_mod_self_0, lemma_mod_twice, lemma_sub_mod_noop,
};
use vstd::arithmetic::power::{lemma_pow0, pow};
use vstd::prelude::*;
use vstd::slice::{slice_subrange, slice_to_vec};

verus! {

/// The error of `num_bigint` for a string that is no number.
#[verifier::external_type_specification]
#[verifier::external_body]
pub struct ExParseBigIntError(ParseBigIntError);

/// A non-negative integer of arbitrary size.
#[derive(Debug)]
pub struct Number {
    pub(crate) bytes: Vec<u8>,
}

impl View for Number {
    type V = nat;

    closed spec fn view(&self) -> nat {
        le_value(self.bytes@)
    }
}

impl Number {
    /// The number that `bytes` denote, least significant byte first.
    pub fn from_bytes_le(bytes: &[u8]) -> (n: Number)
        ensures
            n@ == le_value(bytes@),
    {
        Number { bytes: slice_to_vec(bytes) }
    }

    /// The number with the value of a `u64`.
    pub fn from_u64(value: u64) -> (n: Number)
        ensures
            n@ == value,
    {
        let mut bytes: Vec<u8> = Vec::new();
        let mut rest: u64 = value;
        proof {
            lemma_pow0(256);
        }
        while rest > 0
            invariant
                le_value(bytes@) + rest * pow(256, bytes.len() as nat) == value,
            decreases rest,
        {
            let low: u8 = (rest % 256) as u8;
            proof {
                let weight = pow(256, bytes.len() as nat);
                lemma_le_value_push(bytes@, low);
                assert(pow(256, (bytes.len() + 1) as nat) == 256 * weight) by {
                    reveal(pow);
                }
                assert(rest * weight == low * weight + (rest / 256) * (256 * weight))
                    by (nonlinear_arith)
                    requires
                        rest == 256 * (rest / 256) + low,
                ;
            }
            bytes.push(low);
            rest = rest / 256;
        }
        Number { bytes }
    }

    /// The shortest little-endian byte string of this number; zero is the
    /// single byte `0`.
    pub fn to_bytes_le(&self) -> (bytes: Vec<u8>)
        ensures
            bytes@ == le_encoding(self@),
            le_value(bytes@) == self@,
    {
        let mut len: usize = self.bytes.len();
        proof {
            assert(self.bytes@.subrange(0, len as int) =~= self.bytes@);
        }
        while len > 0 && self.bytes[len - 1] == 0
            invariant
                len <= self.bytes.len(),
                le_value(self.bytes@.subrange(0, len as int)) == self@,
            decreases len,
        {
            proof {
                let kept = self.bytes@.subrange(0, len as int);
                assert(kept.drop_last() =~= self.bytes@.subrange(0, len - 1));
                lemma_le_value_trailing_zero(kept);
            }
            len -= 1;
        }
        proof {
            lemma_le_encoding_value(self@);
        }
        if len == 0 {
            let zero: Vec<u8> = vec![0];
            proof {
                assert(zero@ =~= le_encoding(0));
            }
            zero
        } else {
            proof {
                lemma_le_encoding_of_trimmed(self.bytes@.subrange(0, len as int));
            }
            slice_to_vec(slice_subrange(self.bytes.as_slice(), 0, len))
        }
    }

    /// Whether two numbers have the same value.
    pub fn same(&self, other: &Number) -> (r: bool)
        ensures
            r == (self@ == other@),
    {
        let a = self.to_bytes_le();
        let b = other.to_bytes_le();
        proof {
            lemma_le_encoding_value(self@);
            lemma_le_encoding_value(other@);
        }
        let r = a == b;
        proof {
            if r {
                assert(a@ =~= b@);
            }
        }
        r
    }

    /// Whether this number is zero.
    pub fn is_zero(&self) -> (r: bool)
        ensures
            r == (self@ == 0),
    {
        self.same(&Number::from_u64(0))
    }

    /// The difference `self - other` modulo `modulus`, in `[0, modulus)`.
    pub fn minus_mod(&self, other: &Number, modulus: &Number) -> (n: Number)
        requires
            modulus@ > 0,
        ensures
            n@ == mod_diff(self@, other@, modulus@),
    {
        let a = self.modulo(modulus);
        let b = other.modulo(modulus);
        proof {
            let m = modulus@ as int;
            lemma_mod_bound(self@ as int, m);
            lemma_mod_bound(other@ as int, m);
            // (a + m - b) % m == (a - b) % m == (self - other) % m
            lemma_add_mod_noop(a@ - b@, m, m);
            lemma_mod_self_0(m);
            lemma_mod_twice(a@ - b@, m);
            lemma_sub_mod_noop(self@ as int, other@ as int, m);
        }
        a.plus(modulus).minus(&b).modulo(modulus)
    }

    /// `BigUint::from_str`: the number that a decimal string denotes, or its
    /// error where the string is no decimal number. It reads digits, passes
    /// over underscores after the first digit, and takes one `+` in front.
    #[verifier::external_body]
    pub(crate) fn parse_decimal(s: &str) -> (parsed: Result<Number, ParseBigIntError>)
        ensures
            match parsed {
                Ok(n) => decimal_value(s@) == Some(n@),
                Err(_) => decimal_value(s@) is None,
            },
    {
        match BigUint::from_str(s) {
            Ok(n) => Ok(Number { bytes: n.to_bytes_le() }),
            Err(e) => Err(e),
        }
    }

    /// `BigUint::bits`: the fewest bits that express the value.
    #[verifier::external_body]
    pub(crate) fn bits(&self) -> (n: u64)
        ensures
            n == bit_length(self@),
    {
        BigUint::from_bytes_le(&self.bytes).bits()
    }

    /// `BigUint`'s `+`: the sum.
    #[verifier::external_body]
    pub(crate) fn plus(&self, other: &Number) -> (n: Number)
        ensures
            n@ == self@ + other@,
    {
        let sum = BigUint::from_bytes_le(&self.bytes) + BigUint::from_bytes_le(&other.bytes);
        Number { bytes: sum.to_bytes_le() }
    }

    /// `BigUint`'s `-`, which panics where the result would be negative: the
    /// difference.
    #[verifier::external_body]
    pub(crate) fn minus(&self, other: &Number) -> (n: Number)
        requires
            other@ <= self@,
        ensures
            n@ == self@ - other@,
    {
        let diff = BigUint::from_bytes_le(&self.bytes) - BigUint::from_bytes_le(&other.bytes);
        Number { bytes: diff.to_bytes_le() }
    }

    /// `BigUint`'s `*`: the product.
    #[verifier::external_body]
    pub(crate) fn times(&self, other: &Number) -> (n: Number)
        ensures
            n@ == self@ * other@,
    {
        let product = BigUint::from_bytes_le(&self.bytes) * BigUint::from_bytes_le(&other.bytes);
        Number { bytes: product.to_bytes_le() }
    }

    /// `BigUint`'s `%`, which panics on a zero divisor: the remainder.
    #[verifier::external_body]
    pub(crate) fn modulo(&self, modulus: &Number) -> (n: Number)
        requires
            modulus@ > 0,
        ensures
            n@ == self@ % modulus@,
    {
        let rest = BigUint::from_bytes_le(&self.bytes) % BigUint::from_bytes_le(&modulus.bytes);
        Number { bytes: rest.to_bytes_le() }
    }

    /// `BigUint::modpow`, which panics on a zero modulus: this number to the
    /// power `exponent`, reduced modulo `modulus`.
    #[verifier::external_body]
    pub(crate) fn modpow(&self, exponent: &Number, modulus: &Number) -> (n: Number)
        requires
            modulus@ > 0,
        ensures
            n@ == mod_pow(self@, exponent@, modulus@),
    {
        let base = BigUint::from_bytes_le(&self.bytes);
        let exponent = BigUint::from_bytes_le(&exponent.bytes);
        let modulus = BigUint::from_bytes_le(&modulus.bytes);
        Number { bytes: base.modpow(&exponent, &modulus).to_bytes_le() }
    }

    /// `BigUint::modinv`, which panics on a zero modulus: the inverse of this
    /// number modulo `modulus` in `[0, modulus)`, or `None` where it has none.
    #[verifier::external_body]
    pub(crate) fn modinv(&self, modulus: &Number) -> (inverse: Option<Number>)
        requires
            modulus@ > 0,
        ensures
            match inverse {
                Some(x) => is_inverse(self@, x@, modulus@),
                None => !invertible(self@, modulus@),
            },
    {
        let modulus = BigUint::from_bytes_le(&modulus.bytes);
        match BigUint::from_bytes_le(&self.bytes).modinv(&modulus) {
            Some(x) => Some(Number { bytes: x.to_bytes_le() }),
            None => None,
        }
    }
}

impl PartialEq for Number {
    /// Two numbers are equal exactly if they have the same value.
    fn eq(&self, other: &Self) -> (r: bool) {
        self.same(other)
    }
}

impl Eq for Number {

}

impl vstd::std_specs::cmp::PartialEqSpecImpl for Number {
    open spec fn obeys_eq_spec() -> bool {
        true
    }

    open spec fn eq_spec(&self, other: &Self) -> bool {
        self@ == other@
    }
}

impl Clone for Number {
    fn clone(&self) -> (n: Self)
        ensures
            n@ == self@,
    {
        Number { bytes: self.bytes.clone() }
    }
}

} // verus!
