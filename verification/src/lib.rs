//! Updating a nested value from a line of text.
//!
//! A command names a path into a value and the new value of what lies at its end:
//! `limits 3 250` puts 250 at index 3 of the array that goes by the label `limits`.
//! Reading a command against a value gives a delta, which describes that one change and
//! touches nothing. Applying the delta makes the change, or rejects it and leaves the
//! value as it was.
//!
//! ```ignore
//! let mut limits = [10u32, 20, 30, 40];
//! let delta = {
//!     let mut parse = updater_for(&limits, "limits");
//!     let (_, delta) = parse("limits 3 250")?;
//!     delta
//! };
//! limits.apply(delta)?;
//! // [10, 20, 30, 250]
//! ```
//!
//! [`Updater`] is implemented here for numbers and truth values, for optional values,
//! for arrays and for [`ByteMap`]. A structure gets its updater by hand: one variant of
//! its delta for each field, and [`apply_checked`] for the fields that have checks.

pub mod checks;
pub mod combinators;
pub mod cursor;
pub mod keyed;
pub mod laws;
pub mod leaf;
pub mod number;
pub mod text;
pub mod updater;

pub use crate::checks::apply_checked;
pub use crate::cursor::{Cursor, Failure, ParseResult};
pub use crate::keyed::ByteMap;
pub use crate::leaf::{Describe, Parser};
pub use crate::updater::{updater_for, Updater};
