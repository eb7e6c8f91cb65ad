//! Transliteration of BCMS text between its Latin and Cyrillic orthographies.
//!
//! Conversion is ordered literal substitution: every pair of the table, in
//! table order, has each non-overlapping occurrence of its source grapheme
//! replaced by its destination grapheme.

pub mod chars;
pub mod convert;
pub mod laws;
pub mod replace;
pub mod substitution;
pub mod table;
