//! Field-granular record codec: each named field of a record is kept as its own
//! JSON document, in a file named after the field, and a record is rebuilt from
//! whichever of those files exist.
//!
//! The library decides; the caller touches the storage. A write pass encodes
//! each field in turn and asks [`writer::write_step`] what to do with it once it
//! has looked for the field's file, and a read pass hands [`reader::read_record`] what it found for
//! each field of a [`record::Schema`].
pub mod error;
pub mod field;
pub mod json;
pub mod laws;
pub mod reader;
pub mod record;
pub mod requester;
pub mod writer;

pub use error::{CodecError, SchemaError};
pub use field::{Field, FieldKind, FieldSpec};
pub use reader::{read_field, read_record, Probe};
pub use record::{Record, Schema};
pub use requester::{ElementwiseDeserialize, ElementwiseSerialize, RequesterDetails};
pub use writer::{settle_create, write_action, write_step, CreateOutcome, WriteAction};
