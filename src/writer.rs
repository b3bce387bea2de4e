use vstd::prelude::*;

use crate::error::CodecError;
use crate::field::{
    file_name, file_name_spec, is_absent, is_absent_spec, Field, FieldSpec, FieldSpecView, FieldView,
};

verus! {

/// A directory's field files: file name to content.
pub type DirModel = Map<Seq<char>, Seq<char>>;

/// What writing one field does to a directory: nothing for an absent optional
/// field or for a field whose file is already there, else a new file holding
/// the field's encoding.
pub open spec fn write_field_spec(dir: DirModel, f: FieldView) -> DirModel {
    if f.absent() || dir.contains_key(file_name_spec(f.name)) {
        dir
    } else {
        dir.insert(file_name_spec(f.name), f.text)
    }
}

/// What a write pass does to a directory: each field in declared order.
pub open spec fn write_spec(dir: DirModel, fields: Seq<FieldView>) -> DirModel
    decreases fields.len(),
{
    if fields.len() == 0 {
        dir
    } else {
        write_field_spec(write_spec(dir, fields.drop_last()), fields.last())
    }
}

/// The fields of a schema with the values that encoding gave them.
pub open spec fn encoded_fields(
    schema: Seq<FieldSpecView>,
    encodings: Seq<Result<Seq<char>, CodecError>>,
) -> Seq<FieldView> {
    Seq::new(
        schema.len(),
        |j: int| FieldView { name: schema[j].name, kind: schema[j].kind, text: encodings[j]->Ok_0 },
    )
}

/// What a write pass does when each field's value is encoded in turn, just
/// before the field is written (`encodings[i]` for the field at position `i`):
/// the directory afterwards, and how the pass ended. The first encoding that
/// fails stops the pass; the fields before it stay written.
pub open spec fn write_pass_spec(
    dir: DirModel,
    schema: Seq<FieldSpecView>,
    encodings: Seq<Result<Seq<char>, CodecError>>,
) -> (DirModel, Result<(), CodecError>)
    decreases schema.len(),
{
    if schema.len() == 0 {
        (dir, Ok(()))
    } else {
        let n = schema.len() - 1;
        let (d, r) = write_pass_spec(dir, schema.drop_last(), encodings);
        match r {
            Err(e) => (d, Err(e)),
            Ok(_) => match encodings[n] {
                Err(e) => (d, Err(e)),
                Ok(t) => (
                    write_field_spec(d, FieldView { name: schema[n].name, kind: schema[n].kind, text: t }),
                    Ok(()),
                ),
            },
        }
    }
}

/// What the storage is to do with one field.
#[derive(Debug)]
pub enum WriteAction {
    /// Leave the storage as it is.
    Skip,
    /// Create the file exclusively (never replacing one), put the content in
    /// it, then make the file read-only.
    Create { file_name: String, content: String },
}

/// What an exclusive create reported.
#[derive(Clone, Copy, Debug, PartialEq, Eq, Structural)]
pub enum CreateOutcome {
    /// The file was made and filled.
    Created,
    /// Another writer made the file between the look and the create.
    AlreadyExists,
    /// The storage refused the create, the write or the permission change.
    Failed,
}

/// What carrying out an action does to a directory. An exclusive create of a
/// file that is already there leaves it as it is (see [`settle_create`]).
pub open spec fn apply_action(dir: DirModel, a: WriteAction) -> DirModel {
    match a {
        WriteAction::Skip => dir,
        WriteAction::Create { file_name, content } => if dir.contains_key(file_name@) {
            dir
        } else {
            dir.insert(file_name@, content@)
        },
    }
}

/// Decides what to do with a field once the caller knows whether its file is
/// already there: an absent optional field and a field already persisted are
/// skipped; any other field is created with its encoding as content.
pub fn write_action(field: &Field, file_exists: bool) -> (r: WriteAction)
    ensures
        match r {
            WriteAction::Skip => is_absent_spec(field.kind, field.text@) || file_exists,
            WriteAction::Create { file_name, content } => {
                &&& !is_absent_spec(field.kind, field.text@)
                &&& !file_exists
                &&& file_name@ == file_name_spec(field.name@)
                &&& content@ == field.text@
            },
        },
        forall|dir: DirModel|
            dir.contains_key(file_name_spec(field.name@)) == file_exists ==> #[trigger] apply_action(dir, r)
                == write_field_spec(dir, field@),
{
    if is_absent(field.kind, &field.text) || file_exists {
        WriteAction::Skip
    } else {
        WriteAction::Create { file_name: file_name(field.name.as_str()), content: field.text.clone() }
    }
}

/// One step of a write pass: the field's shape, what encoding its value gave,
/// and whether its file is already there. A failed encoding stops the pass
/// with its error; otherwise the step is the field's [`write_action`].
pub fn write_step(spec: &FieldSpec, encoded: Result<String, CodecError>, file_exists: bool) -> (r: Result<
    WriteAction,
    CodecError,
>)
    ensures
        match encoded {
            Err(e) => r == Err::<WriteAction, CodecError>(e),
            Ok(t) => r matches Ok(a) && forall|dir: DirModel|
                dir.contains_key(file_name_spec(spec.name@)) == file_exists ==> #[trigger] apply_action(dir, a)
                    == write_field_spec(dir, FieldView { name: spec.name@, kind: spec.kind, text: t@ }),
        },
        match (encoded, r) {
            (Ok(t), Ok(WriteAction::Create { file_name, content })) => {
                &&& !file_exists
                &&& !is_absent_spec(spec.kind, t@)
                &&& file_name@ == file_name_spec(spec.name@)
                &&& content@ == t@
            },
            (Ok(t), Ok(WriteAction::Skip)) => file_exists || is_absent_spec(spec.kind, t@),
            _ => true,
        },
{
    match encoded {
        Err(e) => Err(e),
        Ok(text) => {
            let field = Field { name: spec.name.clone(), kind: spec.kind, text };
            Ok(write_action(&field, file_exists))
        },
    }
}

/// Settles a field's exclusive create. A file that another writer made first
/// counts as already persisted, the same as a file found before the create:
/// the field is left as it is and the pass goes on. Any other failure stops
/// the pass at this field.
pub fn settle_create(field: usize, outcome: CreateOutcome) -> (r: Result<(), CodecError>)
    ensures
        r == match outcome {
            CreateOutcome::Failed => Err(CodecError::IoFailure { field }),
            _ => Ok::<(), CodecError>(()),
        },
{
    match outcome {
        CreateOutcome::Failed => Err(CodecError::IoFailure { field }),
        _ => Ok(()),
    }
}

} // verus!
