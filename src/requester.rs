//! The per-type interface of the codec, and the record type it was made for.
use vstd::prelude::*;

use crate::error::CodecError;
use crate::field::{FieldKind, FieldSpec, FieldSpecView, FieldView};
use crate::json::{decode_str, encode_str, json_of_str, str_of_json};
use crate::record::{field_text, names_valid, spec_names, Record, Schema};

verus! {

/// A type whose values can be taken apart into one encoded field each. A
/// write pass encodes each field just before it writes it, so that a field
/// that cannot be encoded stops the pass after the fields before it.
pub trait ElementwiseSerialize {
    /// The fields of the value, in declared order.
    fn elementwise_fields(&self) -> Schema;

    /// The JSON encoding of the value of the field at `index` of those fields
    /// (the null literal for an absent optional value).
    fn elementwise_serialize(&self, index: usize) -> Result<String, CodecError>;
}

/// A type whose values can be rebuilt from one encoded field each.
pub trait ElementwiseDeserialize: Sized {
    /// The fields of the type, in declared order.
    fn elementwise_schema() -> Schema;

    /// Rebuilds a value from a record of the type's schema.
    fn elementwise_deserialize(record: &Record) -> Result<Self, CodecError>;
}

/// Who asked for a piece of work: an organisation and its operator.
#[derive(Debug, PartialEq, Eq)]
pub struct RequesterDetails {
    pub requester_org: String,
    pub operator_name: String,
}

/// The fields of [`RequesterDetails`], both required.
pub open spec fn requester_schema() -> Seq<FieldSpecView> {
    seq![
        FieldSpecView { name: "requester_org"@, kind: FieldKind::Required },
        FieldSpecView { name: "operator_name"@, kind: FieldKind::Required },
    ]
}

/// The record of a [`RequesterDetails`] whose fields encode to these texts.
pub open spec fn requester_fields(org: Seq<char>, operator: Seq<char>) -> Seq<FieldView> {
    seq![
        FieldView { name: "requester_org"@, kind: FieldKind::Required, text: org },
        FieldView { name: "operator_name"@, kind: FieldKind::Required, text: operator },
    ]
}

/// What rebuilding a [`RequesterDetails`] from a record gives: both string
/// values, or the first field, in declared order, that is missing or does not
/// hold a JSON string.
pub open spec fn requester_from_fields(fields: Seq<FieldView>) -> Result<(Seq<char>, Seq<char>), CodecError> {
    match field_text(fields, "requester_org"@) {
        None => Err(CodecError::MissingRequiredField { field: 0 }),
        Some(t) => match str_of_json(t) {
            None => Err(CodecError::MalformedField { field: 0 }),
            Some(org) => match field_text(fields, "operator_name"@) {
                None => Err(CodecError::MissingRequiredField { field: 1 }),
                Some(u) => match str_of_json(u) {
                    None => Err(CodecError::MalformedField { field: 1 }),
                    Some(operator) => Ok((org, operator)),
                },
            },
        },
    }
}

proof fn lemma_requester_names_valid()
    ensures
        names_valid(spec_names(requester_schema())),
{
    reveal_strlit("requester_org");
    reveal_strlit("operator_name");
    let names = seq!["requester_org"@, "operator_name"@];
    assert(names[0][0] != names[1][0]);
    assert(spec_names(requester_schema()) =~= names);
}

/// The schema of [`RequesterDetails`].
fn requester_schema_exec() -> (r: Schema)
    ensures
        r@ == requester_schema(),
{
    let specs = vec![
        FieldSpec { name: String::from_str("requester_org"), kind: FieldKind::Required },
        FieldSpec { name: String::from_str("operator_name"), kind: FieldKind::Required },
    ];
    proof {
        lemma_requester_names_valid();
        assert(specs@.map_values(|f: FieldSpec| f@) =~= requester_schema());
    }
    Schema::from_valid_specs(specs)
}

impl ElementwiseSerialize for RequesterDetails {
    fn elementwise_fields(&self) -> (r: Schema)
        ensures
            r@ == requester_schema(),
    {
        requester_schema_exec()
    }

    /// Encodes the organisation (field 0) or the operator (field 1) as a JSON
    /// string. There is no field past those two to encode.
    fn elementwise_serialize(&self, index: usize) -> (r: Result<String, CodecError>)
        ensures
            match r {
                Ok(t) => index < 2 && t@ == requester_fields(
                    json_of_str(self.requester_org@),
                    json_of_str(self.operator_name@),
                )[index as int].text,
                Err(e) => index >= 2 && e == (CodecError::SerializationFailure { field: index }),
            },
    {
        let encoded = if index == 0 {
            encode_str(self.requester_org.as_str())
        } else if index == 1 {
            encode_str(self.operator_name.as_str())
        } else {
            return Err(CodecError::SerializationFailure { field: index });
        };
        match encoded {
            Ok(t) => Ok(t),
            Err(_) => Err(CodecError::SerializationFailure { field: index }),
        }
    }
}

impl ElementwiseDeserialize for RequesterDetails {
    fn elementwise_schema() -> (r: Schema)
        ensures
            r@ == requester_schema(),
    {
        requester_schema_exec()
    }

    /// Looks each field up by name and decodes it as a JSON string.
    fn elementwise_deserialize(record: &Record) -> (r: Result<RequesterDetails, CodecError>)
        ensures
            match r {
                Ok(v) => requester_from_fields(record@) == Ok::<(Seq<char>, Seq<char>), CodecError>(
                    (v.requester_org@, v.operator_name@),
                ),
                Err(e) => requester_from_fields(record@) == Err::<(Seq<char>, Seq<char>), CodecError>(e),
            },
    {
        let org = match record.text_of("requester_org") {
            None => {
                return Err(CodecError::MissingRequiredField { field: 0 });
            },
            Some(t) => match decode_str(t.as_str()) {
                Ok(s) => s,
                Err(_) => {
                    return Err(CodecError::MalformedField { field: 0 });
                },
            },
        };
        let operator = match record.text_of("operator_name") {
            None => {
                return Err(CodecError::MissingRequiredField { field: 1 });
            },
            Some(t) => match decode_str(t.as_str()) {
                Ok(s) => s,
                Err(_) => {
                    return Err(CodecError::MalformedField { field: 1 });
                },
            },
        };
        Ok(RequesterDetails { requester_org: org, operator_name: operator })
    }
}

} // verus!
