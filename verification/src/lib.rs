//! Small, independent building blocks, each with a contract that Verus proves.
//!
//! The two main ones are a line search over text, with or without regard to
//! case ([`search`], with its command surface in [`command`]), and a cache
//! with a single slot in front of a computation ([`cacher`]). Around them
//! stand a handful of elementary routines on numbers, texts, lists and
//! tables.
//!
//! Text is modelled as `Seq<char>` throughout. What the standard library and
//! the crates `itoa` and `rand` do for this crate is stated, not proved, in
//! [`text`], [`numerals`] and [`guessing`].

pub mod basics;
pub mod cacher;
pub mod coins;
pub mod collections;
pub mod command;
pub mod counter;
pub mod guessing;
pub mod largest;
pub mod numerals;
pub mod ownership;
pub mod search;
pub mod sequences;
pub mod shapes;
pub mod summary;
pub mod text;
pub mod workout;
