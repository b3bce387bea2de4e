//! What holds of write and read passes taken together, over the directory model.
use vstd::prelude::*;

use crate::error::CodecError;
use crate::field::{file_name_spec, lemma_file_name_injective, null_literal, FieldKind, FieldView};
use crate::reader::{read_field_spec, read_spec, states_in, FileState};
use crate::field::FieldSpecView;
use crate::record::{field_names, names_valid, schema_of, spec_names};
use crate::writer::{encoded_fields, write_field_spec, write_pass_spec, write_spec, DirModel};

verus! {

/// No field's file is in the directory.
pub open spec fn holds_none_of(dir: DirModel, fields: Seq<FieldView>) -> bool {
    forall|i: int| 0 <= i < fields.len() ==> !dir.contains_key(file_name_spec(#[trigger] fields[i].name))
}

/// A write pass never changes or removes a file that is already there: field
/// files are immutable once created.
pub proof fn law_write_keeps_existing_files(dir: DirModel, fields: Seq<FieldView>)
    ensures
        forall|k: Seq<char>| #[trigger] dir.contains_key(k) ==> write_spec(dir, fields).contains_key(k)
            && write_spec(dir, fields)[k] == dir[k],
    decreases fields.len(),
{
    if fields.len() > 0 {
        law_write_keeps_existing_files(dir, fields.drop_last());
    }
}

/// After a write pass, every field that is not absent has its file.
proof fn lemma_present_fields_have_files(dir: DirModel, fields: Seq<FieldView>)
    ensures
        forall|i: int| 0 <= i < fields.len() && !(#[trigger] fields[i]).absent() ==> write_spec(
            dir,
            fields,
        ).contains_key(file_name_spec(fields[i].name)),
    decreases fields.len(),
{
    if fields.len() > 0 {
        let pre = fields.drop_last();
        lemma_present_fields_have_files(dir, pre);
        let d = write_spec(dir, pre);
        assert forall|i: int| 0 <= i < fields.len() && !(#[trigger] fields[i]).absent() implies write_spec(
            dir,
            fields,
        ).contains_key(file_name_spec(fields[i].name)) by {
            if i < fields.len() - 1 {
                assert(pre[i] == fields[i]);
                assert(d.contains_key(file_name_spec(fields[i].name)));
            }
        }
    }
}

/// A write pass over a directory that already has the file of every field that
/// is not absent leaves the directory as it is.
proof fn lemma_write_adds_nothing(dir: DirModel, fields: Seq<FieldView>)
    requires
        forall|i: int| 0 <= i < fields.len() && !(#[trigger] fields[i]).absent() ==> dir.contains_key(
            file_name_spec(fields[i].name),
        ),
    ensures
        write_spec(dir, fields) == dir,
    decreases fields.len(),
{
    if fields.len() > 0 {
        let pre = fields.drop_last();
        assert forall|i: int| 0 <= i < pre.len() && !(#[trigger] pre[i]).absent() implies dir.contains_key(
            file_name_spec(pre[i].name),
        ) by {
            assert(pre[i] == fields[i]);
        }
        lemma_write_adds_nothing(dir, pre);
        assert(fields.last() == fields[fields.len() - 1]);
    }
}

/// Writing the same record a second time changes nothing: every file keeps the
/// content of the first write, and no file is added.
pub proof fn law_second_write_changes_nothing(dir: DirModel, fields: Seq<FieldView>)
    ensures
        write_spec(write_spec(dir, fields), fields) == write_spec(dir, fields),
{
    lemma_present_fields_have_files(dir, fields);
    lemma_write_adds_nothing(write_spec(dir, fields), fields);
}

/// An absent optional field is not written: if its file was not there before
/// a write pass, it is not there after it.
pub proof fn law_absent_field_not_written(dir: DirModel, fields: Seq<FieldView>, i: int)
    requires
        names_valid(field_names(fields)),
        0 <= i < fields.len(),
        fields[i].absent(),
        !dir.contains_key(file_name_spec(fields[i].name)),
    ensures
        !write_spec(dir, fields).contains_key(file_name_spec(fields[i].name)),
    decreases fields.len(),
{
    let n = fields.len() - 1;
    let pre = fields.drop_last();
    let key = file_name_spec(fields[i].name);
    if i < n {
        assert(pre[i] == fields[i]);
        assert(field_names(pre) =~= field_names(fields).drop_last());
        law_absent_field_not_written(dir, pre, i);
        assert(field_names(fields)[i] == fields[i].name);
        assert(field_names(fields)[n] == fields[n].name);
        lemma_file_name_injective(fields[i].name, fields[n].name);
    } else {
        assert forall|j: int| 0 <= j < pre.len() implies file_name_spec(#[trigger] pre[j].name) != key by {
            assert(pre[j] == fields[j]);
            assert(field_names(fields)[j] == fields[j].name);
            assert(field_names(fields)[i] == fields[i].name);
            lemma_file_name_injective(fields[j].name, fields[i].name);
        }
        lemma_write_keeps_none(dir, pre, key);
    }
}

/// A write pass adds no file whose name is not that of one of its fields.
proof fn lemma_write_keeps_none(dir: DirModel, fields: Seq<FieldView>, key: Seq<char>)
    requires
        !dir.contains_key(key),
        forall|j: int| 0 <= j < fields.len() ==> file_name_spec(#[trigger] fields[j].name) != key,
    ensures
        !write_spec(dir, fields).contains_key(key),
    decreases fields.len(),
{
    if fields.len() > 0 {
        let pre = fields.drop_last();
        assert forall|j: int| 0 <= j < pre.len() implies file_name_spec(#[trigger] pre[j].name) != key by {
            assert(pre[j] == fields[j]);
        }
        lemma_write_keeps_none(dir, pre, key);
        assert(fields.last() == fields[fields.len() - 1]);
    }
}

/// A write pass into a directory that holds none of the record's files leaves
/// exactly one file for each field that is not absent, holding its encoding.
proof fn lemma_fresh_write(dir: DirModel, fields: Seq<FieldView>)
    requires
        names_valid(field_names(fields)),
        holds_none_of(dir, fields),
    ensures
        forall|i: int|
            0 <= i < fields.len() ==> (write_spec(dir, fields).contains_key(
                file_name_spec(#[trigger] fields[i].name),
            ) <==> !fields[i].absent()),
        forall|i: int|
            0 <= i < fields.len() && !(#[trigger] fields[i]).absent() ==> write_spec(dir, fields)[file_name_spec(
                fields[i].name,
            )] == fields[i].text,
    decreases fields.len(),
{
    if fields.len() > 0 {
        let n = fields.len() - 1;
        let pre = fields.drop_last();
        let names = field_names(fields);
        assert(field_names(pre) =~= names.drop_last());
        assert forall|i: int| 0 <= i < pre.len() implies !dir.contains_key(
            file_name_spec(#[trigger] pre[i].name),
        ) by {
            assert(pre[i] == fields[i]);
        }
        lemma_fresh_write(dir, pre);
        let d = write_spec(dir, pre);
        let last = fields[n];
        assert(fields.last() == last);
        // The last field's file is not among those of the earlier fields.
        assert forall|i: int| 0 <= i < n implies file_name_spec(#[trigger] fields[i].name) != file_name_spec(
            last.name,
        ) by {
            assert(names[i] == fields[i].name);
            assert(names[n] == last.name);
            lemma_file_name_injective(fields[i].name, last.name);
        }
        assert(!dir.contains_key(file_name_spec(last.name)));
        lemma_write_keeps_none(dir, pre, file_name_spec(last.name));
        assert forall|i: int| 0 <= i < fields.len() implies (write_spec(dir, fields).contains_key(
            file_name_spec(#[trigger] fields[i].name),
        ) <==> !fields[i].absent()) && (!fields[i].absent() ==> write_spec(dir, fields)[file_name_spec(
            fields[i].name,
        )] == fields[i].text) by {
            if i < n {
                assert(pre[i] == fields[i]);
            }
        }
    }
}

/// A read pass resolves every field to the given encoding when each field,
/// on its own, resolves to it.
proof fn lemma_read_all_resolved(states: Seq<FileState>, fields: Seq<FieldView>)
    requires
        states.len() >= fields.len(),
        forall|i: int|
            0 <= i < fields.len() ==> read_field_spec(
                (#[trigger] fields[i]).spec_of(),
                i,
                states[i],
            ) == Ok::<Seq<char>, CodecError>(fields[i].text),
    ensures
        read_spec(schema_of(fields), states) == Ok::<Seq<FieldView>, CodecError>(fields),
    decreases fields.len(),
{
    let schema = schema_of(fields);
    if fields.len() == 0 {
        assert(fields =~= Seq::<FieldView>::empty());
    } else {
        let n = fields.len() - 1;
        let pre = fields.drop_last();
        assert forall|i: int| 0 <= i < pre.len() implies read_field_spec(
            (#[trigger] pre[i]).spec_of(),
            i,
            states[i],
        ) == Ok::<Seq<char>, CodecError>(pre[i].text) by {
            assert(pre[i] == fields[i]);
        }
        lemma_read_all_resolved(states, pre);
        assert(schema.drop_last() =~= schema_of(pre));
        assert(read_field_spec(fields[n].spec_of(), n, states[n]) == Ok::<Seq<char>, CodecError>(
            fields[n].text,
        ));
        assert(fields =~= pre.push(
            FieldView { name: schema[n].name, kind: schema[n].kind, text: fields[n].text },
        ));
    }
}

/// Round trip: writing a record into a directory that holds none of its files,
/// then reading that directory with the record's schema, gives the record back,
/// field by field, absent optional fields included.
pub proof fn law_round_trip(dir: DirModel, fields: Seq<FieldView>)
    requires
        names_valid(field_names(fields)),
        holds_none_of(dir, fields),
    ensures
        read_spec(schema_of(fields), states_in(write_spec(dir, fields), schema_of(fields))) == Ok::<
            Seq<FieldView>,
            CodecError,
        >(fields),
{
    let w = write_spec(dir, fields);
    let schema = schema_of(fields);
    let states = states_in(w, schema);
    lemma_fresh_write(dir, fields);
    assert forall|i: int| 0 <= i < fields.len() implies read_field_spec(
        (#[trigger] fields[i]).spec_of(),
        i,
        states[i],
    ) == Ok::<Seq<char>, CodecError>(fields[i].text) by {
        assert(schema[i] == fields[i].spec_of());
        if fields[i].absent() {
            assert(fields[i].kind == FieldKind::Optional && fields[i].text == null_literal());
        }
    }
    lemma_read_all_resolved(states, fields);
}

/// A required field whose file is taken away from an otherwise complete
/// directory makes the read pass fail with that field missing, and no record.
pub proof fn law_missing_required_field_fails(dir: DirModel, fields: Seq<FieldView>, i: int)
    requires
        names_valid(field_names(fields)),
        holds_none_of(dir, fields),
        0 <= i < fields.len(),
        fields[i].kind == FieldKind::Required,
    ensures
        read_spec(
            schema_of(fields),
            states_in(write_spec(dir, fields).remove(file_name_spec(fields[i].name)), schema_of(fields)),
        ) == Err::<Seq<FieldView>, CodecError>(CodecError::MissingRequiredField { field: i as usize }),
{
    let key = file_name_spec(fields[i].name);
    let w = write_spec(dir, fields).remove(key);
    let schema = schema_of(fields);
    let states = states_in(w, schema);
    let names = field_names(fields);
    lemma_fresh_write(dir, fields);
    let pre = fields.take(i);
    assert forall|j: int| 0 <= j < pre.len() implies read_field_spec(
        (#[trigger] pre[j]).spec_of(),
        j,
        states[j],
    ) == Ok::<Seq<char>, CodecError>(pre[j].text) by {
        assert(pre[j] == fields[j]);
        assert(schema[j] == fields[j].spec_of());
        assert(names[j] == fields[j].name);
        assert(names[i] == fields[i].name);
        lemma_file_name_injective(fields[j].name, fields[i].name);
        if fields[j].absent() {
            assert(fields[j].kind == FieldKind::Optional && fields[j].text == null_literal());
        }
    }
    lemma_read_all_resolved(states, pre);
    assert(schema.take(i) =~= schema_of(pre));
    let upto = schema.take(i + 1);
    assert(upto.drop_last() =~= schema.take(i));
    assert(upto[i] == schema[i]);
    assert(schema[i] == fields[i].spec_of());
    assert(states[i] == FileState::Missing);
    crate::reader::lemma_read_error_sticks(schema, states, i + 1);
}

/// A write pass in which every field's encoding succeeds ends well, and
/// writes the record of the encoded values.
pub proof fn law_pass_without_failure(
    dir: DirModel,
    schema: Seq<FieldSpecView>,
    encodings: Seq<Result<Seq<char>, CodecError>>,
)
    requires
        encodings.len() >= schema.len(),
        forall|j: int| 0 <= j < schema.len() ==> (#[trigger] encodings[j]) is Ok,
    ensures
        write_pass_spec(dir, schema, encodings) == (
            write_spec(dir, encoded_fields(schema, encodings)),
            Ok::<(), CodecError>(()),
        ),
    decreases schema.len(),
{
    if schema.len() > 0 {
        let n = schema.len() - 1;
        let pre = schema.drop_last();
        law_pass_without_failure(dir, pre, encodings);
        let fs = encoded_fields(schema, encodings);
        assert(encoded_fields(pre, encodings) =~= fs.drop_last());
        assert(encodings[n] is Ok);
        assert(fs.last() == fs[n]);
    } else {
        assert(encoded_fields(schema, encodings) =~= Seq::<FieldView>::empty());
    }
}

/// Once a prefix of the fields has stopped the pass, the whole pass stops
/// there, with the same directory and error.
proof fn lemma_pass_error_sticks(
    dir: DirModel,
    schema: Seq<FieldSpecView>,
    encodings: Seq<Result<Seq<char>, CodecError>>,
    m: int,
)
    requires
        0 <= m <= schema.len(),
        write_pass_spec(dir, schema.take(m), encodings).1 is Err,
    ensures
        write_pass_spec(dir, schema, encodings) == write_pass_spec(dir, schema.take(m), encodings),
    decreases schema.len() - m,
{
    if m < schema.len() {
        assert(schema.take(m + 1).drop_last() =~= schema.take(m));
        lemma_pass_error_sticks(dir, schema, encodings, m + 1);
    } else {
        assert(schema.take(m) =~= schema);
    }
}

/// A field whose value cannot be encoded stops the write pass with that error.
/// The fields before it stay written as a successful pass writes them; no
/// later field's file is created or changed.
pub proof fn law_encoding_failure_stops_pass(
    dir: DirModel,
    schema: Seq<FieldSpecView>,
    encodings: Seq<Result<Seq<char>, CodecError>>,
    k: int,
)
    requires
        names_valid(spec_names(schema)),
        0 <= k < schema.len(),
        encodings.len() >= schema.len(),
        encodings[k] is Err,
        forall|j: int| 0 <= j < k ==> (#[trigger] encodings[j]) is Ok,
    ensures
        write_pass_spec(dir, schema, encodings).1 == Err::<(), CodecError>(encodings[k]->Err_0),
        write_pass_spec(dir, schema, encodings).0 == write_spec(
            dir,
            encoded_fields(schema.take(k), encodings),
        ),
        forall|j: int|
            k <= j < schema.len() ==> {
                let key = file_name_spec(#[trigger] schema[j].name);
                let d = write_pass_spec(dir, schema, encodings).0;
                &&& d.contains_key(key) == dir.contains_key(key)
                &&& dir.contains_key(key) ==> d[key] == dir[key]
            },
{
    let pre = schema.take(k);
    law_pass_without_failure(dir, pre, encodings);
    let upto = schema.take(k + 1);
    assert(upto.drop_last() =~= pre);
    assert(upto[k] == schema[k]);
    lemma_pass_error_sticks(dir, schema, encodings, k + 1);
    let fs = encoded_fields(pre, encodings);
    law_write_keeps_existing_files(dir, fs);
    let names = spec_names(schema);
    assert forall|j: int| k <= j < schema.len() implies {
        let key = file_name_spec(#[trigger] schema[j].name);
        let d = write_pass_spec(dir, schema, encodings).0;
        &&& d.contains_key(key) == dir.contains_key(key)
        &&& dir.contains_key(key) ==> d[key] == dir[key]
    } by {
        let key = file_name_spec(schema[j].name);
        if !dir.contains_key(key) {
            assert forall|i: int| 0 <= i < fs.len() implies file_name_spec(#[trigger] fs[i].name) != key by {
                assert(fs[i].name == schema[i].name);
                assert(names[i] == schema[i].name);
                assert(names[j] == schema[j].name);
                lemma_file_name_injective(schema[i].name, schema[j].name);
            }
            lemma_write_keeps_none(dir, fs, key);
        }
    }
}

} // verus!
