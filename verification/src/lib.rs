//! Select lines of a target text by an index text.
//!
//! The index says which lines of the target to keep, in one of two ways.
//! Matched by content, the index stands beside the target line for line, and
//! a target line is kept where a regular expression matches the index line
//! beside it. Read as numbers, the index lists line numbers and ranges of
//! them, `N`, `N,M`, `,M` and `N,`, in rising order, and a target line is kept
//! where an expression holds its number. Either selection can be inverted.
//!
//! - [`lineparse`] reads the expressions of a numeric index.
//! - [`index`] holds the two kinds of index and says what each selects.
//! - [`select`] is the engine: it goes through both texts in one pass, a line
//!   at a time, and leaves the reading to its driver.
//! - [`output`] says what a whole run yields, [`by_content`] and
//!   [`by_number`] say it again without the steps of the engine, and
//!   [`buffered`] runs the engine over texts that are held in memory.
//! - [`text`] strips line terminators and writes numbers.

pub mod buffered;
pub mod by_content;
pub mod by_number;
pub mod index;
pub mod lineparse;
pub mod output;
pub mod select;
pub mod text;
