//! String formatting with format strings that are only known at run time.
//!
//! A format string is tokenized, resolved against a set of arguments, and
//! built into a plan that can be rendered. Arguments are either concrete
//! values given with the format string, or the fields of a record type whose
//! shape is known before any value is.

pub mod buffer;
pub mod codegen;
pub mod error;
pub mod grammar;
pub mod ident;
pub mod laws;
pub mod plan;
pub mod render;
pub mod replay;
pub mod schema;
pub mod text;
pub mod tokenizer;
pub mod value;

pub use buffer::{FormatBuf, PreparedFormat};
pub use codegen::{combine, FormatArgs};
pub use error::Error;
pub use schema::{
    Attribute, Body, BoolAttribute, Container, Context, DeriveInput, Field, FieldAttribute,
    FieldDecl,
};
pub use value::{FormatTrait, Param, Value, ValueType};
