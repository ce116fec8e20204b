//! Bonding-curve pricing and supply accounting for sequential edition mints.
//!
//! A [`curve::BondingCurve`] holds the parameters of a pricing curve and the
//! running totals of a collection. Prices come from the closed-form curves of
//! [`price`] or from a write-once [`lookup::BezierPriceLookup`]. A mint is a
//! small state machine ([`mint`]) that only commits supply and volume once
//! both the payment and the issuance of the unit have been confirmed.

pub mod key;
pub mod error;
pub mod price;
pub mod curve;
pub mod lookup;
pub mod mint;

pub use key::Key;
pub use error::BondingCurveError;
pub use price::{calculate_price, CurveType};
pub use curve::{close_curve, get_price, initialize_curve, update_curve, BondingCurve};
pub use lookup::{initialize_bezier_lookup, BezierPriceLookup};
pub use mint::{advance_mint, get_price_with_bezier_lookup, mint_edition, mint_edition_with_bezier_lookup, MintAttempt, MintEvent, MintStage};
