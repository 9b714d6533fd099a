//! Field synthesis: from the schema and the effective configuration of one
//! field to its storage field, its setter operations and its initializer.

use vstd::prelude::*;
use vstd::string::*;
use crate::directive::{DefaultRule, DefaultRuleView, Pattern, Visibility};
use crate::grammar::skip_spaces;
use crate::pattern::{select, shape_of, Handback, Receiver};
use crate::resolve::{EffectiveFieldConfig, EffectiveFieldConfigView};
use crate::schema::{FieldSchema, FieldSchemaView};
use crate::text::{copy_texts, space_char, views_of, views_of_empty, views_of_push};

verus! {

/// What the slot of a storage field wraps.
#[derive(Clone, Copy, Debug, PartialEq, Eq, Structural)]
pub enum SlotType {
    /// The declared type of the field.
    Declared,
    /// The owned form of the declared type, which is a reference that the
    /// builder could not keep.
    OwnedForm,
}

/// One storage field of a builder: a slot that is empty until a setter
/// fills it, so that "never set" differs from every value of the type.
#[derive(Clone, Debug, PartialEq, Eq)]
pub struct StorageField {
    pub name: String,
    /// The declared type of the field.
    pub value_type: String,
    /// What the slot wraps.
    pub slot: SlotType,
    pub annotations: Vec<String>,
}

/// Model of a [`StorageField`].
pub struct StorageFieldView {
    pub name: Seq<char>,
    pub value_type: Seq<char>,
    pub slot: SlotType,
    pub annotations: Seq<Seq<char>>,
}

impl View for StorageField {
    type V = StorageFieldView;

    open spec fn view(&self) -> StorageFieldView {
        StorageFieldView {
            name: self.name@,
            value_type: self.value_type@,
            slot: self.slot,
            annotations: views_of(self.annotations@),
        }
    }
}

/// What a setter accepts as its argument.
#[derive(Clone, Copy, Debug, PartialEq, Eq, Structural)]
pub enum Parameter {
    /// A value of the field's type.
    Exact,
    /// A value of any type that converts into the field's type.
    ConvertsInto,
    /// A value of any type whose conversion into the field's type may
    /// fail.
    FallibleConvertsInto,
}

/// One setter operation of a builder. It stores the value it is given, or
/// what that value converts into, in the slot of its field and hands the
/// builder back; a fallible setter whose conversion fails leaves the slot
/// as it was and hands the failure back.
#[derive(Clone, Debug, PartialEq, Eq)]
pub struct SetterOp {
    pub name: String,
    /// The position of the field among the fields of the record.
    pub field: usize,
    /// The declared type of the field.
    pub value_type: String,
    pub parameter: Parameter,
    pub receiver: Receiver,
    pub result: Handback,
    pub visibility: Visibility,
    pub annotations: Vec<String>,
}

/// Model of a [`SetterOp`].
pub struct SetterOpView {
    pub name: Seq<char>,
    pub field: usize,
    pub value_type: Seq<char>,
    pub parameter: Parameter,
    pub receiver: Receiver,
    pub result: Handback,
    pub visibility: Visibility,
    pub annotations: Seq<Seq<char>>,
}

impl View for SetterOp {
    type V = SetterOpView;

    open spec fn view(&self) -> SetterOpView {
        SetterOpView {
            name: self.name@,
            field: self.field,
            value_type: self.value_type@,
            parameter: self.parameter,
            receiver: self.receiver,
            result: self.result,
            visibility: self.visibility,
            annotations: views_of(self.annotations@),
        }
    }
}

/// How the build operation gets the value of one field: from the slot
/// where it is set, else by the fallback rule, else not at all.
#[derive(Clone, Debug, PartialEq, Eq)]
pub struct Initializer {
    /// The name of the field.
    pub field: String,
    /// Whether the value is copied out of the slot.
    pub copies: bool,
    /// Where the value comes from when the slot is empty.
    pub fallback: DefaultRule,
}

/// Model of an [`Initializer`].
pub struct InitializerView {
    pub field: Seq<char>,
    pub copies: bool,
    pub fallback: DefaultRuleView,
}

impl View for Initializer {
    type V = InitializerView;

    open spec fn view(&self) -> InitializerView {
        InitializerView { field: self.field@, copies: self.copies, fallback: self.fallback@ }
    }
}

/// What is synthesized for one field.
#[derive(Clone, Debug, PartialEq, Eq)]
pub struct FieldParts {
    pub storage: StorageField,
    /// No setter, the plain setter, or the plain setter and the fallible
    /// one.
    pub setters: Vec<SetterOp>,
    pub initializer: Initializer,
}

/// Model of [`FieldParts`].
pub struct FieldPartsView {
    pub storage: StorageFieldView,
    pub setters: Seq<SetterOpView>,
    pub initializer: InitializerView,
}

impl View for FieldParts {
    type V = FieldPartsView;

    open spec fn view(&self) -> FieldPartsView {
        FieldPartsView {
            storage: self.storage@,
            setters: views_of(self.setters@),
            initializer: self.initializer@,
        }
    }
}

impl StorageField {
    /// An owned copy of this storage field.
    pub fn copy(&self) -> (r: StorageField)
        ensures
            r@ == self@,
    {
        StorageField {
            name: self.name.clone(),
            value_type: self.value_type.clone(),
            slot: self.slot,
            annotations: copy_texts(&self.annotations),
        }
    }
}

impl SetterOp {
    /// An owned copy of this setter.
    pub fn copy(&self) -> (r: SetterOp)
        ensures
            r@ == self@,
    {
        SetterOp {
            name: self.name.clone(),
            field: self.field,
            value_type: self.value_type.clone(),
            parameter: self.parameter,
            receiver: self.receiver,
            result: self.result,
            visibility: self.visibility,
            annotations: copy_texts(&self.annotations),
        }
    }
}

impl Initializer {
    /// An owned copy of this initializer.
    pub fn copy(&self) -> (r: Initializer)
        ensures
            r@ == self@,
    {
        Initializer { field: self.field.clone(), copies: self.copies, fallback: self.fallback.copy() }
    }
}

/// A type is written as a reference where its first character that is no
/// blank is an ampersand.
pub open spec fn is_reference_type(t: Seq<char>) -> bool {
    let a = skip_spaces(t, 0);
    0 <= a < t.len() && t[a] == '&'
}

/// The storage field of a field.
pub open spec fn storage_of(f: FieldSchemaView) -> StorageFieldView {
    StorageFieldView {
        name: f.name,
        value_type: f.value_type,
        slot: if is_reference_type(f.value_type) {
            SlotType::OwnedForm
        } else {
            SlotType::Declared
        },
        annotations: f.annotations,
    }
}

/// The plain setter of the field at position `index`.
pub open spec fn plain_setter_of(index: usize, f: FieldSchemaView, c: EffectiveFieldConfigView)
    -> SetterOpView {
    SetterOpView {
        name: c.setter_name,
        field: index,
        value_type: f.value_type,
        parameter: if c.setter_into {
            Parameter::ConvertsInto
        } else {
            Parameter::Exact
        },
        receiver: shape_of(c.pattern).setter_receiver,
        result: shape_of(c.pattern).setter_result,
        visibility: c.visibility,
        annotations: f.annotations,
    }
}

/// The name of the fallible setter beside the setter `name`.
pub open spec fn fallible_name(name: Seq<char>) -> Seq<char> {
    "try_"@ + name
}

/// The fallible setter of the field at position `index`.
pub open spec fn fallible_setter_of(index: usize, f: FieldSchemaView, c: EffectiveFieldConfigView)
    -> SetterOpView {
    SetterOpView {
        name: fallible_name(c.setter_name),
        parameter: Parameter::FallibleConvertsInto,
        ..plain_setter_of(index, f, c)
    }
}

/// The setters of the field at position `index`: none where the setter is
/// skipped, else the plain one, and behind it the fallible one where it is
/// asked for.
pub open spec fn setters_of(index: usize, f: FieldSchemaView, c: EffectiveFieldConfigView) -> Seq<
    SetterOpView,
> {
    if !c.setter_enabled {
        Seq::empty()
    } else if c.try_setter {
        seq![plain_setter_of(index, f, c), fallible_setter_of(index, f, c)]
    } else {
        seq![plain_setter_of(index, f, c)]
    }
}

/// The initializer of a field in a build operation of pattern `build`.
pub open spec fn initializer_of(f: FieldSchemaView, c: EffectiveFieldConfigView, build: Pattern)
    -> InitializerView {
    InitializerView { field: f.name, copies: shape_of(build).build_copies, fallback: c.default }
}

/// What is synthesized for the field at position `index`, in a record
/// whose build operation has the pattern `build`.
pub open spec fn field_parts(
    index: usize,
    f: FieldSchemaView,
    c: EffectiveFieldConfigView,
    build: Pattern,
) -> FieldPartsView {
    FieldPartsView {
        storage: storage_of(f),
        setters: setters_of(index, f, c),
        initializer: initializer_of(f, c, build),
    }
}

/// Decides whether a type is written as a reference.
pub fn reference_type(t: &str) -> (r: bool)
    ensures
        r == is_reference_type(t@),
{
    let n: usize = t.unicode_len();
    let mut a: usize = 0;
    while a < n && space_char(t.get_char(a))
        invariant
            n == t@.len(),
            a <= n,
            skip_spaces(t@, 0) == skip_spaces(t@, a as int),
        decreases n - a,
    {
        a = a + 1;
    }
    a < n && t.get_char(a) == '&'
}

/// Synthesizes the storage field of a field.
pub fn synthesize_storage(f: &FieldSchema) -> (r: StorageField)
    ensures
        r@ == storage_of(f@),
{
    StorageField {
        name: f.name.clone(),
        value_type: f.value_type.clone(),
        slot: if reference_type(f.value_type.as_str()) {
            SlotType::OwnedForm
        } else {
            SlotType::Declared
        },
        annotations: copy_texts(&f.annotations),
    }
}

/// Synthesizes the setters of the field at position `index`.
pub fn synthesize_setters(index: usize, f: &FieldSchema, c: &EffectiveFieldConfig) -> (r: Vec<
    SetterOp,
>)
    ensures
        views_of(r@) == setters_of(index, f@, c@),
{
    let mut out: Vec<SetterOp> = Vec::new();
    proof {
        views_of_empty::<SetterOp>();
    }
    if !c.setter_enabled {
        return out;
    }
    let shape = select(c.pattern);
    let plain = SetterOp {
        name: c.setter_name.clone(),
        field: index,
        value_type: f.value_type.clone(),
        parameter: if c.setter_into {
            Parameter::ConvertsInto
        } else {
            Parameter::Exact
        },
        receiver: shape.setter_receiver,
        result: shape.setter_result,
        visibility: c.visibility,
        annotations: copy_texts(&f.annotations),
    };
    proof {
        views_of_push(out@, plain);
    }
    out.push(plain);
    if c.try_setter {
        let mut name = String::from_str("try_");
        name.append(c.setter_name.as_str());
        let fallible = SetterOp {
            name,
            field: index,
            value_type: f.value_type.clone(),
            parameter: Parameter::FallibleConvertsInto,
            receiver: shape.setter_receiver,
            result: shape.setter_result,
            visibility: c.visibility,
            annotations: copy_texts(&f.annotations),
        };
        proof {
            views_of_push(out@, fallible);
        }
        out.push(fallible);
        assert(views_of(out@) =~= setters_of(index, f@, c@));
    } else {
        assert(views_of(out@) =~= setters_of(index, f@, c@));
    }
    out
}

/// Synthesizes the initializer of a field in a build operation of pattern
/// `build`.
pub fn synthesize_initializer(f: &FieldSchema, c: &EffectiveFieldConfig, build: Pattern) -> (r:
    Initializer)
    ensures
        r@ == initializer_of(f@, c@, build),
{
    Initializer { field: f.name.clone(), copies: select(build).build_copies, fallback: c.default.copy() }
}

/// Synthesizes the storage field, the setters and the initializer of the
/// field at position `index`, in a record whose build operation has the
/// pattern `build`.
pub fn synthesize_field(index: usize, f: &FieldSchema, c: &EffectiveFieldConfig, build: Pattern)
    -> (r: FieldParts)
    ensures
        r@ == field_parts(index, f@, c@, build),
{
    FieldParts {
        storage: synthesize_storage(f),
        setters: synthesize_setters(index, f, c),
        initializer: synthesize_initializer(f, c, build),
    }
}

} // verus!
