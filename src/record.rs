use vstd::prelude::*;

use crate::error::{CodecError, SchemaError};
use crate::field::{Field, FieldKind, FieldSpec, FieldSpecView, FieldView};
use crate::requester::ElementwiseSerialize;

verus! {

/// The field at position `i` has an empty name, or the name of an earlier field.
pub open spec fn name_fault(names: Seq<Seq<char>>, i: int) -> bool {
    names[i].len() == 0 || exists|j: int| 0 <= j < i && names[j] == names[i]
}

/// Every name is non-empty and no two names are equal.
pub open spec fn names_valid(names: Seq<Seq<char>>) -> bool {
    &&& forall|i: int| 0 <= i < names.len() ==> (#[trigger] names[i]).len() > 0
    &&& forall|i: int, j: int|
        0 <= i < names.len() && 0 <= j < names.len() && i != j ==> names[i] != names[j]
}

/// What checking these names reports: nothing when they are valid, else the
/// first position at fault, as an empty or as a repeated name.
pub open spec fn name_check_result(names: Seq<Seq<char>>, r: Option<SchemaError>) -> bool {
    match r {
        None => names_valid(names),
        Some(e) => {
            let i = e.position() as int;
            &&& 0 <= i < names.len()
            &&& name_fault(names, i)
            &&& forall|k: int| 0 <= k < i ==> !name_fault(names, k)
            &&& (e is EmptyName <==> names[i].len() == 0)
        },
    }
}

pub open spec fn spec_names(specs: Seq<FieldSpecView>) -> Seq<Seq<char>> {
    specs.map_values(|s: FieldSpecView| s.name)
}

pub open spec fn field_names(fields: Seq<FieldView>) -> Seq<Seq<char>> {
    fields.map_values(|f: FieldView| f.name)
}

/// The shape of a record: its fields without their values.
pub open spec fn schema_of(fields: Seq<FieldView>) -> Seq<FieldSpecView> {
    fields.map_values(|f: FieldView| f.spec_of())
}

/// Checks that the names are non-empty and pairwise distinct.
fn check_names(names: &Vec<String>) -> (r: Option<SchemaError>)
    ensures
        name_check_result(names@.map_values(|s: String| s@), r),
{
    let ghost v = names@.map_values(|s: String| s@);
    let n = names.len();
    let mut i: usize = 0;
    while i < n
        invariant
            n == names@.len(),
            v == names@.map_values(|s: String| s@),
            i <= n,
            forall|k: int| 0 <= k < i ==> !name_fault(v, k),
        decreases n - i,
    {
        if names[i].unicode_len() == 0 {
            assert(v[i as int] == names@[i as int]@);
            return Some(SchemaError::EmptyName { field: i });
        }
        assert(v[i as int] == names@[i as int]@);
        let mut j: usize = 0;
        while j < i
            invariant
                n == names@.len(),
                v == names@.map_values(|s: String| s@),
                j <= i < n,
                v[i as int].len() > 0,
                forall|k: int| 0 <= k < i ==> !name_fault(v, k),
                forall|m: int| 0 <= m < j ==> v[m] != v[i as int],
            decreases i - j,
        {
            assert(v[j as int] == names@[j as int]@);
            assert(v[i as int] == names@[i as int]@);
            if names[j].eq(&names[i]) {
                assert(name_fault(v, i as int));
                return Some(SchemaError::DuplicateName { field: i });
            }
            j = j + 1;
        }
        assert(!name_fault(v, i as int));
        i = i + 1;
    }
    assert forall|a: int, b: int| 0 <= a < v.len() && 0 <= b < v.len() && a != b implies v[a]
        != v[b] by {
        if a < b {
            assert(!name_fault(v, b));
        } else {
            assert(!name_fault(v, a));
        }
    }
    assert forall|a: int| 0 <= a < v.len() implies (#[trigger] v[a]).len() > 0 by {
        assert(!name_fault(v, a));
    }
    None
}

/// The encoding of the field called `name`, if the record has one.
pub open spec fn field_text(fields: Seq<FieldView>, name: Seq<char>) -> Option<Seq<char>> {
    if exists|i: int| 0 <= i < fields.len() && (#[trigger] fields[i]).name == name {
        Some(fields[choose|i: int| 0 <= i < fields.len() && (#[trigger] fields[i]).name == name].text)
    } else {
        None
    }
}

/// The shape of a record: its fields in declared order, each with a non-empty
/// name that no other field has.
pub struct Schema {
    fields: Vec<FieldSpec>,
}

impl View for Schema {
    type V = Seq<FieldSpecView>;

    closed spec fn view(&self) -> Seq<FieldSpecView> {
        self.fields@.map_values(|s: FieldSpec| s@)
    }
}

impl Schema {
    #[verifier::type_invariant]
    closed spec fn inv(&self) -> bool {
        names_valid(spec_names(self@))
    }

    /// A schema of these fields, or the first field whose name is empty or repeated.
    pub fn new(fields: Vec<FieldSpec>) -> (r: Result<Schema, SchemaError>)
        ensures
            match r {
                Ok(s) => s@ == fields@.map_values(|f: FieldSpec| f@) && names_valid(
                    spec_names(s@),
                ),
                Err(e) => name_check_result(spec_names(fields@.map_values(|f: FieldSpec| f@)), Some(e)),
            },
    {
        let mut names: Vec<String> = Vec::new();
        let mut i: usize = 0;
        while i < fields.len()
            invariant
                i <= fields@.len(),
                names@.len() == i,
                forall|k: int| 0 <= k < i ==> (#[trigger] names@[k])@ == fields@[k].name@,
            decreases fields@.len() - i,
        {
            names.push(fields[i].name.clone());
            i = i + 1;
        }
        let ghost sv = spec_names(fields@.map_values(|f: FieldSpec| f@));
        assert(names@.map_values(|s: String| s@) =~= sv);
        match check_names(&names) {
            Some(e) => Err(e),
            None => Ok(Schema { fields }),
        }
    }

    /// A schema of fields whose names are already known to be valid.
    pub(crate) fn from_valid_specs(fields: Vec<FieldSpec>) -> (r: Schema)
        requires
            names_valid(spec_names(fields@.map_values(|f: FieldSpec| f@))),
        ensures
            r@ == fields@.map_values(|f: FieldSpec| f@),
    {
        Schema { fields }
    }

    pub fn len(&self) -> (r: usize)
        ensures
            r == self@.len(),
    {
        self.fields.len()
    }

    /// The fields, in declared order.
    pub fn fields(&self) -> (r: &Vec<FieldSpec>)
        ensures
            r@.map_values(|f: FieldSpec| f@) == self@,
            names_valid(spec_names(self@)),
    {
        proof {
            use_type_invariant(self);
        }
        &self.fields
    }
}

/// A record: its fields in declared order, each with a non-empty name that no
/// other field has, and each with the JSON encoding of its value.
pub struct Record {
    fields: Vec<Field>,
}

impl View for Record {
    type V = Seq<FieldView>;

    closed spec fn view(&self) -> Seq<FieldView> {
        self.fields@.map_values(|f: Field| f@)
    }
}

impl Record {
    #[verifier::type_invariant]
    closed spec fn inv(&self) -> bool {
        names_valid(field_names(self@))
    }

    /// A record of these fields, or the first field whose name is empty or repeated.
    pub fn new(fields: Vec<Field>) -> (r: Result<Record, SchemaError>)
        ensures
            match r {
                Ok(rec) => rec@ == fields@.map_values(|f: Field| f@) && names_valid(
                    field_names(rec@),
                ),
                Err(e) => name_check_result(field_names(fields@.map_values(|f: Field| f@)), Some(e)),
            },
    {
        let mut names: Vec<String> = Vec::new();
        let mut i: usize = 0;
        while i < fields.len()
            invariant
                i <= fields@.len(),
                names@.len() == i,
                forall|k: int| 0 <= k < i ==> (#[trigger] names@[k])@ == fields@[k].name@,
            decreases fields@.len() - i,
        {
            names.push(fields[i].name.clone());
            i = i + 1;
        }
        let ghost nv = field_names(fields@.map_values(|f: Field| f@));
        assert(names@.map_values(|s: String| s@) =~= nv);
        match check_names(&names) {
            Some(e) => Err(e),
            None => Ok(Record { fields }),
        }
    }

    /// A record of fields whose names are already known to be valid.
    pub(crate) fn from_valid_fields(fields: Vec<Field>) -> (r: Record)
        requires
            names_valid(field_names(fields@.map_values(|f: Field| f@))),
        ensures
            r@ == fields@.map_values(|f: Field| f@),
    {
        Record { fields }
    }

    pub fn len(&self) -> (r: usize)
        ensures
            r == self@.len(),
    {
        self.fields.len()
    }

    /// The shape of this record: its fields' names and kinds, in order.
    pub fn schema(&self) -> (r: Schema)
        ensures
            r@ == schema_of(self@),
    {
        proof {
            use_type_invariant(self);
        }
        let mut specs: Vec<FieldSpec> = Vec::new();
        let mut i: usize = 0;
        while i < self.fields.len()
            invariant
                i <= self@.len(),
                specs@.len() == i,
                forall|k: int| 0 <= k < i ==> (#[trigger] specs@[k])@ == self@[k].spec_of(),
            decreases self@.len() - i,
        {
            assert(self@[i as int] == self.fields@[i as int]@);
            specs.push(FieldSpec { name: self.fields[i].name.clone(), kind: self.fields[i].kind });
            i = i + 1;
        }
        proof {
            let sv = specs@.map_values(|f: FieldSpec| f@);
            assert(sv =~= schema_of(self@));
            assert(spec_names(sv) =~= field_names(self@));
        }
        Schema::from_valid_specs(specs)
    }

    /// The encoding of the field called `name`, if the record has one.
    pub fn text_of(&self, name: &str) -> (r: Option<&String>)
        ensures
            match r {
                Some(t) => field_text(self@, name@) == Some(t@),
                None => field_text(self@, name@) is None,
            },
    {
        proof {
            use_type_invariant(self);
        }
        let target = String::from_str(name);
        let mut i: usize = 0;
        while i < self.fields.len()
            invariant
                target@ == name@,
                names_valid(field_names(self@)),
                i <= self@.len(),
                forall|k: int| 0 <= k < i ==> (#[trigger] self@[k]).name != name@,
            decreases self@.len() - i,
        {
            assert(self@[i as int] == self.fields@[i as int]@);
            if self.fields[i].name.eq(&target) {
                let ghost names = field_names(self@);
                assert(self@[i as int].name == name@);
                let ghost c = choose|j: int| 0 <= j < self@.len() && (#[trigger] self@[j]).name == name@;
                assert(names[i as int] == self@[i as int].name);
                assert(names[c] == self@[c].name);
                assert(c == i as int);
                return Some(&self.fields[i].text);
            }
            i = i + 1;
        }
        None
    }

    /// The fields, in declared order.
    pub fn fields(&self) -> (r: &Vec<Field>)
        ensures
            r@.map_values(|f: Field| f@) == self@,
            names_valid(field_names(self@)),
    {
        proof {
            use_type_invariant(self);
        }
        &self.fields
    }
}

/// A record is written as it stands: each field's text is its encoding.
impl ElementwiseSerialize for Record {
    fn elementwise_fields(&self) -> (r: Schema)
        ensures
            r@ == schema_of(self@),
    {
        self.schema()
    }

    /// The text of the field at `index`; there is no field past the last.
    fn elementwise_serialize(&self, index: usize) -> (r: Result<String, CodecError>)
        ensures
            match r {
                Ok(t) => index < self@.len() && t@ == self@[index as int].text,
                Err(e) => index >= self@.len() && e == (CodecError::SerializationFailure { field: index }),
            },
    {
        if index < self.fields.len() {
            assert(self@[index as int] == self.fields@[index as int]@);
            Ok(self.fields[index].text.clone())
        } else {
            Err(CodecError::SerializationFailure { field: index })
        }
    }
}

} // verus!
