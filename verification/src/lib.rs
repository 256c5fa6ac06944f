//! Swift source-code exporter for a language-agnostic model of data types.
//!
//! The crate translates an in-memory collection of named data types
//! (structs, enums, primitives, collections, generics) into Swift source
//! text with matching `Codable` wire-format behaviour.

mod chars;
mod text;
pub mod case_conversion;
pub mod codable;
pub mod config;
pub mod declaration;
pub mod export;
pub mod formatting;
pub mod laws;
pub mod model;
pub mod orchestrator;
pub mod primitives;
pub mod rename_rules;
pub mod special_types;
pub mod validation;
pub mod variant_naming;

pub use config::{DuplicateNameStrategy, DuplicateNamer, Error, NamingConvention, OptionalStyle,
    StructNamingStrategy, Swift};
