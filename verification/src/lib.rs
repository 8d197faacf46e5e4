//! Reduction of wind-tunnel measurements to non-dimensional aerodynamic
//! coefficients, in exact arithmetic.
//!
//! Every physical quantity is a fixed-point number: an integer count of
//! millionths of its unit. Coefficients are quotients of two such products and
//! are returned unreduced as a [`ratio::Ratio`], so that no rounding takes place
//! between a measurement and the coefficient derived from it. The only rounding
//! in the library is the division by a whole number in a unit conversion or a
//! mean, which rounds down to the next millionth.

pub mod cell;
pub mod coefficients;
pub mod conditions;
pub mod datum;
pub mod error;
pub mod fixed;
pub mod integrate;
pub mod pipeline;
pub mod pressures;
pub mod ratio;
pub mod runs;
pub mod schema;
