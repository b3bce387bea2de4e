use vstd::prelude::*;

use crate::error::CodecError;
use crate::field::{
    file_name_spec, null_literal, null_text, Field, FieldKind, FieldSpec, FieldSpecView,
    FieldView,
};
use crate::record::{field_names, names_valid, schema_of, spec_names, Record, Schema};
use crate::writer::DirModel;

verus! {

/// What the caller found where a field's file should be.
#[derive(Debug)]
pub enum Probe {
    /// There is no such file.
    Missing,
    /// The file is there and holds this text.
    Found(String),
    /// The file is there but could not be opened or read.
    Unreadable,
}

/// What a [`Probe`] stands for.
pub enum FileState {
    Missing,
    Found(Seq<char>),
    Unreadable,
}

impl View for Probe {
    type V = FileState;

    open spec fn view(&self) -> FileState {
        match self {
            Probe::Missing => FileState::Missing,
            Probe::Found(t) => FileState::Found(t@),
            Probe::Unreadable => FileState::Unreadable,
        }
    }
}

/// What a directory holds for the field called `name`.
pub open spec fn state_in(dir: DirModel, name: Seq<char>) -> FileState {
    if dir.contains_key(file_name_spec(name)) {
        FileState::Found(dir[file_name_spec(name)])
    } else {
        FileState::Missing
    }
}

/// What a directory holds for each field of a schema, in order.
pub open spec fn states_in(dir: DirModel, schema: Seq<FieldSpecView>) -> Seq<FileState> {
    Seq::new(schema.len(), |i: int| state_in(dir, schema[i].name))
}

/// The encoding that one field resolves to: the file's text when there is a
/// file, the null literal for a missing optional field; a missing required
/// field and an unreadable file are errors.
pub open spec fn read_field_spec(spec: FieldSpecView, index: int, st: FileState) -> Result<
    Seq<char>,
    CodecError,
> {
    match st {
        FileState::Found(t) => Ok(t),
        FileState::Missing => if spec.kind == FieldKind::Optional {
            Ok(null_literal())
        } else {
            Err(CodecError::MissingRequiredField { field: index as usize })
        },
        FileState::Unreadable => Err(CodecError::IoFailure { field: index as usize }),
    }
}

/// What a read pass yields: the record with each field resolved in declared
/// order, or the error of the first field that cannot be resolved.
pub open spec fn read_spec(schema: Seq<FieldSpecView>, states: Seq<FileState>) -> Result<
    Seq<FieldView>,
    CodecError,
>
    decreases schema.len(),
{
    if schema.len() == 0 {
        Ok(Seq::empty())
    } else {
        let n = schema.len() - 1;
        match read_spec(schema.drop_last(), states) {
            Err(e) => Err(e),
            Ok(done) => match read_field_spec(schema[n], n, states[n]) {
                Err(e) => Err(e),
                Ok(t) => Ok(done.push(FieldView { name: schema[n].name, kind: schema[n].kind, text: t })),
            },
        }
    }
}

/// Resolves one field (at position `index`) from what was found for its file.
pub fn read_field(spec: &FieldSpec, index: usize, probe: &Probe) -> (r: Result<String, CodecError>)
    ensures
        match r {
            Ok(t) => read_field_spec(spec@, index as int, probe@) == Ok::<Seq<char>, CodecError>(t@),
            Err(e) => read_field_spec(spec@, index as int, probe@) == Err::<Seq<char>, CodecError>(e),
        },
{
    match probe {
        Probe::Found(t) => Ok(t.clone()),
        Probe::Missing => match spec.kind {
            FieldKind::Optional => Ok(null_text()),
            FieldKind::Required => Err(CodecError::MissingRequiredField { field: index }),
        },
        Probe::Unreadable => Err(CodecError::IoFailure { field: index }),
    }
}

/// Rebuilds a record of this schema from what was found for each of its fields
/// (`probes[i]` for the field at position `i`). Stops at the first field that
/// cannot be resolved; no partial record is returned.
pub fn read_record(schema: &Schema, probes: &Vec<Probe>) -> (r: Result<Record, CodecError>)
    requires
        probes@.len() == schema@.len(),
    ensures
        match r {
            Ok(rec) => read_spec(schema@, probes@.map_values(|p: Probe| p@)) == Ok::<
                Seq<FieldView>,
                CodecError,
            >(rec@),
            Err(e) => read_spec(schema@, probes@.map_values(|p: Probe| p@)) == Err::<
                Seq<FieldView>,
                CodecError,
            >(e),
        },
{
    let specs = schema.fields();
    let ghost states = probes@.map_values(|p: Probe| p@);
    let mut fields: Vec<Field> = Vec::new();
    let mut i: usize = 0;
    assert(schema@.take(0).len() == 0);
    assert(fields@.map_values(|f: Field| f@) =~= Seq::<FieldView>::empty());
    while i < specs.len()
        invariant
            specs@.map_values(|f: FieldSpec| f@) == schema@,
            names_valid(spec_names(schema@)),
            probes@.len() == schema@.len(),
            states == probes@.map_values(|p: Probe| p@),
            i <= schema@.len(),
            read_spec(schema@.take(i as int), states) == Ok::<Seq<FieldView>, CodecError>(
                fields@.map_values(|f: Field| f@),
            ),
        decreases schema@.len() - i,
    {
        let ghost pre = schema@.take(i as int);
        let ghost next = schema@.take(i as int + 1);
        assert(next.drop_last() =~= pre);
        assert(next[i as int] == schema@[i as int]);
        assert(specs@[i as int]@ == schema@[i as int]);
        assert(states[i as int] == probes@[i as int]@);
        let t = read_field(&specs[i], i, &probes[i]);
        match t {
            Err(e) => {
                proof {
                    lemma_read_error_sticks(schema@, states, i as int + 1);
                }
                return Err(e);
            },
            Ok(text) => {
                let f = Field { name: specs[i].name.clone(), kind: specs[i].kind, text };
                fields.push(f);
                assert(fields@.map_values(|f: Field| f@) =~= read_spec(pre, states)->Ok_0.push(
                    f@,
                ));
            },
        }
        i = i + 1;
    }
    assert(schema@.take(i as int) =~= schema@);
    let ghost fv = fields@.map_values(|f: Field| f@);
    proof {
        lemma_read_keeps_shape(schema@, states);
    }
    assert(field_names(fv) =~= spec_names(schema@));
    Ok(Record::from_valid_fields(fields))
}

/// A record that a read pass yields has the schema's fields, in its order.
pub proof fn lemma_read_keeps_shape(schema: Seq<FieldSpecView>, states: Seq<FileState>)
    ensures
        read_spec(schema, states) matches Ok(v) ==> schema_of(v) == schema,
    decreases schema.len(),
{
    if schema.len() > 0 {
        lemma_read_keeps_shape(schema.drop_last(), states);
        if let Ok(v) = read_spec(schema, states) {
            let pv = read_spec(schema.drop_last(), states)->Ok_0;
            assert(schema_of(v) =~= schema_of(pv).push(schema.last()));
            assert(schema =~= schema.drop_last().push(schema.last()));
        }
    } else {
        if let Ok(v) = read_spec(schema, states) {
            assert(schema_of(v) =~= schema);
        }
    }
}

/// Once a prefix of the schema fails to resolve, every longer prefix fails
/// with the same error.
pub proof fn lemma_read_error_sticks(schema: Seq<FieldSpecView>, states: Seq<FileState>, k: int)
    requires
        0 <= k <= schema.len(),
        read_spec(schema.take(k), states) is Err,
    ensures
        read_spec(schema, states) == read_spec(schema.take(k), states),
    decreases schema.len() - k,
{
    if k < schema.len() {
        let next = schema.take(k + 1);
        assert(next.drop_last() =~= schema.take(k));
        lemma_read_error_sticks(schema, states, k + 1);
    } else {
        assert(schema.take(k) =~= schema);
    }
}

} // verus!
