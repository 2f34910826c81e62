//! Custom attributes for the variants of an enum.
//!
//! An enum declares named, typed attributes; each variant assigns values to
//! them; for every attribute one accessor is generated that returns, per
//! variant, the assigned value:
//!
//! ```text
//! #[attr(pub a: usize = 8, #[function = "name"] b: Option<&'static str>)]
//! enum Enum {
//!     #[attr(a = 5, b = "one")]
//!     One,
//!     #[attr(a = *#self.0)]
//!     Two(usize),
//!     Three,
//! }
//! ```
//!
//! This crate holds the resolver and the generator. The enum arrives as
//! token trees ([`input`], [`token`]); the attribute language is read from
//! them ([`parse`], [`value`], [`expr2`], [`config`], [`declaration`]), the
//! references to fields are resolved ([`reference`]), the values are bound
//! to the attributes and checked ([`attribute`], [`opt`]), and the
//! accessors are written ([`emit`], [`text`]). [`derive`] runs these phases
//! and returns the generated tokens, or every problem that was found, each
//! with its place ([`diag`]).
//!
//! Whether a sequence of tokens is an expression, a type, a visibility, an
//! identifier, a path or a literal is asked of `syn` ([`syntax`],
//! [`node`]). Everything else is stated and proved here: each function says
//! in its contract what it returns, over the mathematical values of its
//! arguments.

pub mod token;
pub mod model;
pub mod diag;
pub mod text;
pub mod syntax;
pub mod node;
pub mod parse;
pub mod expr2;
pub mod value;
pub mod opt;
pub mod reference;
pub mod config;
pub mod input;
pub mod declaration;
pub mod attribute;
pub mod emit;
pub mod derive;
