//! Address ranges of compilation units, three ways.
//!
//! Debug information says in three places which addresses the code of a
//! compilation unit takes up: in the ranges that the unit declares for
//! itself, in its line program, and in the entries of its functions. This
//! library reads the three, keeps each as a [`range_list::RangeList`], a
//! coalesced set of half-open address ranges, and writes out where they
//! differ.
//!
//! The range sets and their text are verified outright. What is read out of
//! an object file comes from the `object` and `gimli` crates; the functions
//! that call them state what they do with the values that come back, over
//! the names that [`object_file`] and [`dwarf`] give to those values.

pub mod dwarf;
pub mod entry;
pub mod extract;
pub mod failure;
pub mod laws;
pub mod object_file;
pub mod range;
pub mod range_list;
pub mod report;
pub mod text;
pub mod unit;
