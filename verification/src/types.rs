//! Types that the whole crate shares.

use crate::number::Number;
use vstd::prelude::*;

verus! {

/// The public identity of an issuer or of a spender: an element of the group.
pub type Identity = Number;

/// What the issuer hands to a spender at registration: an element of the
/// group that belongs to this issuer and this spender.
pub type RegistrationID = Number;

/// Why an operation gave no result.
#[derive(Clone, Copy, Debug, PartialEq, Eq, Structural)]
pub enum BrandsError {
    /// A decimal string is not a non-negative integer.
    Parse,
    /// The spender has no registration id yet.
    NotRegistered,
    /// A scalar that has to be divided by has no inverse modulo `q`.
    NonInvertible,
    /// Two spent coins do not hold the same coin.
    CoinMismatch,
}

} // verus!
