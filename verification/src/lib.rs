//! Conversion of GraphQL object types into Avro record schemas.
//!
//! [`graphql`] models the parsed source document and [`avro`] the target
//! schema tree. [`convert`] resolves the type references of the one into
//! schemas of the other, [`serialize`] gives a schema its JSON form over the
//! values of [`json`], and [`theorems`] holds what is proved of every
//! conversion.

pub mod avro;
pub mod convert;
pub mod graphql;
pub mod json;
pub mod lookup;
pub mod serialize;
pub mod theorems;
