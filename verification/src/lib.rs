//! Translates the signature of a Rust function into a TypeScript function
//! declaration.
//!
//! The text of a signature is cut into header, parameter list and return
//! type (`segment`). Each part is read on its own (`header`, `params`,
//! `output`); the bounds on the generic parameters, which stand in the
//! header and in the `where` clause, are gathered in one map (`generics`).
//! The signature so read is written as a declaration (`signature`). What
//! holds of every signature and declaration is proved in `laws`.

pub mod ast;
pub mod error;
pub mod generics;
pub mod header;
pub mod laws;
pub mod output;
pub mod params;
pub mod scan;
pub mod segment;
pub mod signature;
pub mod text;
pub mod types;
