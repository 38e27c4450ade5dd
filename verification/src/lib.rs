//! A pocket calculator in two parts.
//!
//! The arithmetic is a fixed-precision decimal floating-point engine: values
//! with a fifteen-digit significand and a two-digit exponent, with addition
//! and multiplication that work digit by digit, drop low zeros into the
//! exponent, truncate what does not fit, and fail where the exponent leaves
//! its range. It lives in [`digits`], [`canon`], [`float`] and [`text`];
//! [`laws`] states what holds of it for all values.
//!
//! The keyboard and display logic is a state machine: [`keys`] maps keyboard
//! input to keys, [`calculator`] lets a key act on the state, and [`screen`]
//! says what the state shows.

pub mod arith;
pub mod calculator;
pub mod canon;
pub mod digits;
pub mod display;
pub mod float;
pub mod keys;
pub mod laws;
pub mod mode;
pub mod screen;
pub mod style;
pub mod text;
pub mod token;

pub use calculator::Calculator;
pub use digits::{from_digits, shift, to_digits, Digit};
pub use display::DisplayBlock;
pub use float::{check_exponent, Float};
