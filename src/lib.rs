//! Access-control grant commands over two label registries.
//!
//! A registry maps each label to the identifiers that hold it. Set expressions over
//! labels (`(A OR (B AND C))`, `(A EXCEPT B)`) are parsed into trees and evaluated
//! against a registry; a grant command `GRANT <permission> ON <expr> TO <expr>` is
//! split, its permission checked against an allow-list, and its two expressions
//! resolved against the asset and the user registry.

pub mod idset;
pub mod registry;
pub mod expr;
pub mod text;
pub mod parser;
pub mod database;
pub mod command;
pub mod loader;
