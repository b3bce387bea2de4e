use vstd::prelude::*;

verus! {

/// Whether a field may be absent from a record.
#[derive(Clone, Copy, Debug, PartialEq, Eq, Structural)]
pub enum FieldKind {
    Required,
    Optional,
}

/// The JSON null literal, which encodes an absent optional value.
pub open spec fn null_literal() -> Seq<char> {
    "null"@
}

/// Presence codec: an optional field is absent exactly when its encoding is the
/// null literal. A required field is never absent, whatever its encoding.
pub open spec fn is_absent_spec(kind: FieldKind, text: Seq<char>) -> bool {
    kind == FieldKind::Optional && text == null_literal()
}

/// The name of the file that holds a field: the field's name with `.json` after it.
pub open spec fn file_name_spec(name: Seq<char>) -> Seq<char> {
    name + ".json"@
}

/// One field of a record shape: its name and whether it may be absent.
pub struct FieldSpec {
    pub name: String,
    pub kind: FieldKind,
}

/// One field of a record: its name, whether it may be absent, and the JSON
/// encoding of its value (the null literal for an absent optional value).
pub struct Field {
    pub name: String,
    pub kind: FieldKind,
    pub text: String,
}

/// What a [`FieldSpec`] stands for.
pub struct FieldSpecView {
    pub name: Seq<char>,
    pub kind: FieldKind,
}

/// What a [`Field`] stands for.
pub struct FieldView {
    pub name: Seq<char>,
    pub kind: FieldKind,
    pub text: Seq<char>,
}

impl View for FieldSpec {
    type V = FieldSpecView;

    open spec fn view(&self) -> FieldSpecView {
        FieldSpecView { name: self.name@, kind: self.kind }
    }
}

impl View for Field {
    type V = FieldView;

    open spec fn view(&self) -> FieldView {
        FieldView { name: self.name@, kind: self.kind, text: self.text@ }
    }
}

impl FieldView {
    /// The shape of this field, without its value.
    pub open spec fn spec_of(self) -> FieldSpecView {
        FieldSpecView { name: self.name, kind: self.kind }
    }

    pub open spec fn absent(self) -> bool {
        is_absent_spec(self.kind, self.text)
    }
}

/// The null literal, as a string of its own.
pub fn null_text() -> (r: String)
    ensures
        r@ == null_literal(),
{
    String::from_str("null")
}

/// Whether a field with this kind and encoding is absent.
pub fn is_absent(kind: FieldKind, text: &String) -> (r: bool)
    ensures
        r == is_absent_spec(kind, text@),
{
    match kind {
        FieldKind::Required => false,
        FieldKind::Optional => {
            let null = null_text();
            text.eq(&null)
        },
    }
}

/// The name of the file that holds the field called `name`.
pub fn file_name(name: &str) -> (r: String)
    ensures
        r@ == file_name_spec(name@),
{
    String::from_str(name).concat(".json")
}

/// Two field names give the same file name only when they are the same name.
pub proof fn lemma_file_name_injective(a: Seq<char>, b: Seq<char>)
    ensures
        file_name_spec(a) == file_name_spec(b) <==> a == b,
{
    if file_name_spec(a) == file_name_spec(b) {
        assert(file_name_spec(a).len() == a.len() + ".json"@.len());
        assert(file_name_spec(b).len() == b.len() + ".json"@.len());
        assert(a.len() == b.len());
        assert(a =~= file_name_spec(a).subrange(0, a.len() as int));
        assert(b =~= file_name_spec(b).subrange(0, b.len() as int));
    }
}

} // verus!
