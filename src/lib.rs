//! Synthetic payment-card test data: a catalog of card networks, Luhn
//! arithmetic, card-number construction and validation.

pub mod text;
pub mod luhn;
pub mod networks;
pub mod card_generator;
pub mod validator;
mod random;
pub mod exporters;
pub mod fake_data;
pub mod commands;
