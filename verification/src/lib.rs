//! The syntax-level logic of three macros, on plain values.
//!
//! `seq!` expands a block of tokens once per value of an integer range:
//! [`token`] models nested token streams, [`invocation`] parses
//! `N in 0..8 { ... }`, [`splice`] substitutes one value for the placeholder,
//! [`repeat`] expands `#( ... )*` blocks and [`driver`] puts them together.
//!
//! A derived builder and a derived `Debug` are planned in [`builder`] and
//! [`debug`], over the shapes of types and attributes in [`shape`] and
//! [`attribute`]. What the syntax-tree parser alone can tell of a token's
//! text is named in [`syntax`].

pub mod attribute;
pub mod builder;
pub mod debug;
pub mod decimal;
pub mod driver;
pub mod field;
pub mod invocation;
pub mod repeat;
pub mod shape;
pub mod splice;
pub mod syntax;
pub mod token;
