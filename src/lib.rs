//! Builds source text for Rust declarations from an in-memory model and
//! renders it with stable ordering and consistent indentation.
//!
//! Every renderer's contract states the text it writes as a sequence of
//! [`formatter::Piece`]s; `laws` proves the properties that relate several
//! operations.

pub mod bound;
pub mod docs;
pub mod enum_def;
pub mod field;
pub mod fields;
pub mod formatter;
pub mod function;
pub mod impl_block;
pub mod import;
pub mod laws;
pub mod scope;
pub mod struct_def;
pub mod text;
pub mod trait_def;
pub mod type_alias;
pub mod type_def;
pub mod type_ref;
pub mod variant;

pub use crate::bound::Bound;
pub use crate::docs::Docs;
pub use crate::enum_def::Enum;
pub use crate::field::Field;
pub use crate::fields::Fields;
pub use crate::formatter::Formatter;
pub use crate::function::Function;
pub use crate::impl_block::Impl;
pub use crate::import::Import;
pub use crate::scope::{Item, Module, Scope};
pub use crate::struct_def::Struct;
pub use crate::trait_def::Trait;
pub use crate::type_alias::TypeAlias;
pub use crate::type_def::TypeDef;
pub use crate::type_ref::{IntoType, Type};
pub use crate::variant::Variant;
