//! A compiler front end for interface definition files: it reads declarations of
//! structs, unions, enums, callbacks, type aliases and constants, resolves them into a
//! typed model, and renders that model for a C header and for a Rust FFI layer.
//!
//! The way of a file through the library:
//!
//! - [`lexis`], [`grammar`] and [`parser`] turn its text into a syntax tree ([`tree`]);
//! - [`resolver`], [`declarations`], [`enums`] and [`api_parser`] turn the tree into
//!   the declarations of the file ([`model`]);
//! - [`files`] puts the parsed files in order, and [`linker`] resolves the names that
//!   one file uses and another declares;
//! - [`c_abi`] and [`ffi`] render variables and functions for the two targets.
//!
//! Every function is verified against a contract over the views of these types.

pub mod api_parser;
pub mod c_abi;
pub mod declarations;
pub mod enums;
pub mod error;
pub mod ffi;
pub mod files;
pub mod grammar;
pub mod lexis;
pub mod linker;
pub mod model;
pub mod parser;
pub mod resolver;
pub mod text;
pub mod tree;

pub use crate::api_parser::ApiParser;
pub use crate::c_abi::write_c_commments;
pub use crate::error::ApigenError;
pub use crate::files::sort_by_filename;
pub use crate::linker::LinkTables;
pub use crate::model::{
    ApiDef, ArrayType, Const, Enum, EnumEntry, EnumType, Function, FunctionType, Struct, Type,
    TypeModifier, Variable, VariableType,
};
pub use crate::resolver::{classify_type, is_primitve};
pub use crate::tree::{Node, Rule};
