//! Brands' untraceable offline electronic cash over a prime-order subgroup of
//! the integers modulo a safe prime.
//!
//! An issuer blindly signs coins for a spender, the spender pays them to
//! receivers offline, and spending one coin twice reveals who spent it.
//!
//! The modules [`arith`] and [`protocol`] state the scheme as mathematics,
//! [`guarantees`] proves what it promises, and the remaining modules are the
//! parties and the values they exchange.

pub mod arith;
pub mod number;
pub mod types;
pub mod cryptographics;
pub mod protocol;
pub mod guarantees;
pub mod params;
pub mod coin;
pub mod withdrawal;
pub mod issuer;
pub mod spender;
pub mod toy;

pub use coin::{Coin, CoinChallenge, PartialCoin, SpentCoin};
pub use issuer::Issuer;
pub use number::Number;
pub use params::Params;
pub use spender::Spender;
pub use types::{BrandsError, Identity, RegistrationID};
pub use withdrawal::{
    Withdrawal, WithdrawalChallenge, WithdrawalParams, WithdrawalResponse,
    WithdrawalResponseParams,
};
