//! Validating parsers that turn command-line text into integers.
//!
//! * `number_range`: a base-10 integer within inclusive bounds.
//! * `si_number`: an integer with an optional metric prefix (`1k5`, `2.5M`).
//! * `si_number_range`: the same within inclusive bounds.
//! * `maybe_hex` / `maybe_bin`: an unsigned integer in base 10, or base 16
//!   after `0x` (base 2 after `0b`).
//! * `maybe_hex_range` / `maybe_bin_range`: the same within inclusive bounds.
//!
//! Each parser is generic over the integer types of `Integer` and returns the
//! value or a short message that says why the text was refused. The module
//! `laws` states and proves how the parsers relate.
pub mod decimal;
pub mod error;
pub mod integer;
pub mod laws;
pub mod literal;
pub mod radix;
pub mod range;
pub mod si;
pub mod text;

pub use error::ErrorKind;
pub use integer::{Integer, Wide};
pub use radix::{maybe_bin, maybe_bin_range, maybe_hex, maybe_hex_range, Unsigned};
pub use range::number_range;
pub use si::{si_number, si_number_range, SiPrefix};
