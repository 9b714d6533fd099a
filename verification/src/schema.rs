//! The schema of a record: what the engine is given.

use vstd::prelude::*;
use crate::text::{same_text, views_of};

verus! {

/// One named field of a record.
#[derive(Clone, Debug, PartialEq, Eq)]
pub struct FieldSchema {
    /// The name of the field.
    pub name: String,
    /// The type of the field's value, as it is written.
    pub value_type: String,
    /// The directive text attached to the field.
    pub directives: String,
    /// The annotations of the field that go over to the builder as they
    /// are.
    pub annotations: Vec<String>,
}

/// Model of a [`FieldSchema`].
pub struct FieldSchemaView {
    pub name: Seq<char>,
    pub value_type: Seq<char>,
    pub directives: Seq<char>,
    pub annotations: Seq<Seq<char>>,
}

impl View for FieldSchema {
    type V = FieldSchemaView;

    open spec fn view(&self) -> FieldSchemaView {
        FieldSchemaView {
            name: self.name@,
            value_type: self.value_type@,
            directives: self.directives@,
            annotations: views_of(self.annotations@),
        }
    }
}

/// A record with its fields in the order of their declaration.
#[derive(Clone, Debug, PartialEq, Eq)]
pub struct RecordSchema {
    /// The name of the record.
    pub name: String,
    /// The fields, in the order of their declaration.
    pub fields: Vec<FieldSchema>,
    /// The directive text attached to the record.
    pub directives: String,
}

/// Model of a [`RecordSchema`].
pub struct RecordSchemaView {
    pub name: Seq<char>,
    pub fields: Seq<FieldSchemaView>,
    pub directives: Seq<char>,
}

impl View for RecordSchema {
    type V = RecordSchemaView;

    open spec fn view(&self) -> RecordSchemaView {
        RecordSchemaView {
            name: self.name@,
            fields: views_of(self.fields@),
            directives: self.directives@,
        }
    }
}

impl RecordSchemaView {
    /// No two fields of the record have the same name.
    pub open spec fn distinct_names(self) -> bool {
        forall|i: int, j: int|
            0 <= i < j < self.fields.len() ==> self.fields[i].name != self.fields[j].name
    }
}

/// The names of the annotations that go over from a field to the builder:
/// documentation, conditional compilation and lint permissions.
pub open spec fn is_forwarded_annotation(name: Seq<char>) -> bool {
    name == "doc"@ || name == "cfg"@ || name == "allow"@
}

/// Decides whether an annotation of the given name goes over from a field
/// to the builder.
pub fn forwards_annotation(name: &str) -> (r: bool)
    ensures
        r == is_forwarded_annotation(name@),
{
    same_text(name, "doc") || same_text(name, "cfg") || same_text(name, "allow")
}

impl RecordSchema {
    /// Decides whether no two fields of the record have the same name.
    pub fn has_distinct_names(&self) -> (r: bool)
        ensures
            r == self@.distinct_names(),
    {
        let n = self.fields.len();
        let mut j: usize = 0;
        while j < n
            invariant
                n == self.fields@.len(),
                j <= n,
                forall|a: int, b: int|
                    0 <= a < b < j ==> self.fields@[a].name@ != self.fields@[b].name@,
            decreases n - j,
        {
            let mut i: usize = 0;
            while i < j
                invariant
                    n == self.fields@.len(),
                    j < n,
                    i <= j,
                    forall|a: int| 0 <= a < i ==> self.fields@[a].name@ != self.fields@[j as int].name@,
                decreases j - i,
            {
                if same_text(self.fields[i].name.as_str(), self.fields[j].name.as_str()) {
                    assert(self@.fields[i as int].name == self@.fields[j as int].name);
                    return false;
                }
                i = i + 1;
            }
            j = j + 1;
        }
        assert forall|a: int, b: int| 0 <= a < b < self@.fields.len() implies self@.fields[a].name
            != self@.fields[b].name by {
            assert(self@.fields[a].name == self.fields@[a].name@);
            assert(self@.fields[b].name == self.fields@[b].name@);
        }
        true
    }
}

} // verus!
