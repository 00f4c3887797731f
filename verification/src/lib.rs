//! Verified parsing of the textual arguments of a Mandelbrot set plotter.
//!
//! An argument such as `"640x480"` or `"-3,17"` is a pair: two operands with
//! a separator character between them. [`split_pair`] finds the operands,
//! [`FromText`] reads a value from each, and [`parse_pair`] does both. Every
//! function states exactly what it returns, and Verus proves it.

pub mod decimal;
pub mod from_text;
pub mod pair;
pub mod split;

pub use decimal::parse_numeral;
pub use from_text::FromText;
pub use pair::{both, parse_pair, test_parse_pair};
pub use split::split_pair;
