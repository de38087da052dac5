//! Console variables: named, typed values that can be set from text,
//! autocompleted from a prefix, and shared between threads.

pub mod cvar;
pub mod decimal;
pub mod error;
pub mod names;
pub mod text;
pub mod value;

pub use cvar::{CVar, InnerCVar};
pub use error::{Error, ErrorView, IntErrorKind, ParseIntError};
pub use names::{DeriveError, NameTable, VariantDecl};
pub use value::Value;
