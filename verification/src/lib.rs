//! Tariff engine for a pay-by-minute-or-package car-sharing service.
//!
//! The library turns one semi-structured tabular tariff definition per
//! pricing tier into a typed price model, and computes, for a given trip
//! (distance, begin and end time), the cheapest way to cover the trip's
//! duration and distance over every eligible car category and every
//! optional prepaid package.
//!
//! All quantities are held as fixed-point integers:
//! - money amounts parsed from a table are in hundred-thousandths of a
//!   koruna (`MONEY_SCALE` units per CZK);
//! - distances are in thousandths of a kilometre (`KM_SCALE` units per km);
//! - computed total prices are in hundred-millionths of a koruna
//!   (`PRICE_SCALE` units per CZK), so that a distance overage of
//!   `d` distance units at `p` money units per kilometre is exactly
//!   `d * p` price units, with no rounding anywhere;
//! - instants are naive local date-times counted in whole minutes from an
//!   arbitrary fixed epoch, time-of-day values in minutes after midnight.

pub mod calc;
pub mod catalog;
pub mod labels;
pub mod laws;
pub mod model;
pub mod numbers;
pub mod parser;
pub mod render;
pub mod text;
