//! The frontend of a small graph query engine: it reads a Cypher-like query
//! and produces a logical plan, a tree of operators over the slots of one row.

pub mod backend;
pub mod error;
pub mod frontend;
pub mod text;
pub mod value;

pub use crate::backend::Token;
pub use crate::error::{Error, ErrorKind};
pub use crate::frontend::plan::Dir;
pub use crate::value::{Row, Slot, Type, Val};
