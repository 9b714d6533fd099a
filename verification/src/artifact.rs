//! Artifact assembly: the description of the whole builder, and the way
//! from a record's schema to it.

use vstd::prelude::*;
use vstd::string::*;
use crate::build_op::{build_op_of, opt_build, synthesize_build, BuildOp, BuildOpView};
use crate::directive::{ConfigurationError, ConfigurationErrorView, DefaultRule};
use crate::field::{
    FieldParts, FieldPartsView, Initializer, InitializerView, Parameter, SetterOp, SetterOpView,
    StorageField, StorageFieldView,
};
use crate::resolve::{EffectiveBuildConfig, EffectiveBuildConfigView};
use crate::text::{same_text, views_of, views_of_push};

verus! {

/// The description of a synthesized builder: all that the engine hands
/// on.
#[derive(Clone, Debug, PartialEq, Eq)]
pub struct SynthesizedArtifact {
    /// The name of the builder type.
    pub builder_name: String,
    /// One storage field for each field of the record, in their order.
    pub storage: Vec<StorageField>,
    /// The setters of all fields, in the order of the fields.
    pub setters: Vec<SetterOp>,
    /// The build operation; none where it is skipped.
    pub build: Option<BuildOp>,
    /// The traits to attach to the builder type.
    pub derives: Vec<String>,
}

/// Model of a [`SynthesizedArtifact`].
pub struct SynthesizedArtifactView {
    pub builder_name: Seq<char>,
    pub storage: Seq<StorageFieldView>,
    pub setters: Seq<SetterOpView>,
    pub build: Option<BuildOpView>,
    pub derives: Seq<Seq<char>>,
}

impl View for SynthesizedArtifact {
    type V = SynthesizedArtifactView;

    open spec fn view(&self) -> SynthesizedArtifactView {
        SynthesizedArtifactView {
            builder_name: self.builder_name@,
            storage: views_of(self.storage@),
            setters: views_of(self.setters@),
            build: opt_build(self.build),
            derives: views_of(self.derives@),
        }
    }
}

impl SynthesizedArtifactView {
    /// The parts of the artifact fit together: every setter stores into a
    /// field of the builder, the setters come in the order of their
    /// fields, and the build operation, where there is one, initializes
    /// the fields one by one, in their order.
    pub open spec fn well_formed(self) -> bool {
        &&& forall|k: int|
            0 <= k < self.setters.len() ==> (#[trigger] self.setters[k]).field
                < self.storage.len()
        &&& forall|j: int, k: int|
            0 <= j <= k < self.setters.len() ==> (#[trigger] self.setters[j]).field <= (
            #[trigger] self.setters[k]).field
        &&& self.build matches Some(op) ==> {
            &&& op.initializers.len() == self.storage.len()
            &&& forall|i: int|
                0 <= i < op.initializers.len() ==> (#[trigger] op.initializers[i]).field
                    == self.storage[i].name
        }
    }
}

/// What was synthesized for a field does not fit together.
#[derive(Clone, Copy, Debug, PartialEq, Eq, Structural)]
pub struct ConsistencyError {
    /// The position of the field among the fields of the record.
    pub field: usize,
}

/// Why no artifact was synthesized.
#[derive(Clone, Debug, PartialEq, Eq)]
pub enum SynthesisError {
    /// A configuration was refused; `field` is the position of the field
    /// on which it stands, `None` where it stands on the record.
    Configuration { error: ConfigurationError, field: Option<usize> },
    /// What was synthesized does not fit together.
    Consistency(ConsistencyError),
}

/// Model of a [`SynthesisError`].
pub enum SynthesisErrorView {
    Configuration { error: ConfigurationErrorView, field: Option<usize> },
    Consistency(ConsistencyError),
}

impl View for SynthesisError {
    type V = SynthesisErrorView;

    open spec fn view(&self) -> SynthesisErrorView {
        match self {
            SynthesisError::Configuration { error, field } => SynthesisErrorView::Configuration {
                error: error@,
                field: *field,
            },
            SynthesisError::Consistency(e) => SynthesisErrorView::Consistency(*e),
        }
    }
}

/// The number of setters that cannot fail.
pub open spec fn plain_count(setters: Seq<SetterOpView>) -> nat
    decreases setters.len(),
{
    if setters.len() == 0 {
        0
    } else {
        plain_count(setters.drop_last()) + if setters.last().parameter
            == Parameter::FallibleConvertsInto {
            0nat
        } else {
            1nat
        }
    }
}

/// What was synthesized for the field at position `index` fits together:
/// the field has exactly one setter that cannot fail, or else it has no
/// setter at all and a default; its setters name its position; and its
/// initializer names its storage field.
pub open spec fn consistent(p: FieldPartsView, index: int) -> bool {
    &&& (plain_count(p.setters) == 1) != (p.setters.len() == 0
        && !(p.initializer.fallback is Required))
    &&& forall|k: int| 0 <= k < p.setters.len() ==> (#[trigger] p.setters[k]).field == index
    &&& p.initializer.field == p.storage.name
}

/// The position of the first field whose parts do not fit together.
pub open spec fn first_inconsistent(parts: Seq<FieldPartsView>) -> Option<int>
    decreases parts.len(),
{
    if parts.len() == 0 {
        None
    } else {
        match first_inconsistent(parts.drop_last()) {
            Some(i) => Some(i),
            None => if consistent(parts.last(), parts.len() - 1) {
                None
            } else {
                Some(parts.len() - 1)
            },
        }
    }
}

/// The storage fields of all fields, in order.
pub open spec fn all_storage(parts: Seq<FieldPartsView>) -> Seq<StorageFieldView> {
    parts.map_values(|p: FieldPartsView| p.storage)
}

/// The initializers of all fields, in order.
pub open spec fn all_initializers(parts: Seq<FieldPartsView>) -> Seq<InitializerView> {
    parts.map_values(|p: FieldPartsView| p.initializer)
}

/// The setters of all fields, in the order of the fields.
pub open spec fn all_setters(parts: Seq<FieldPartsView>) -> Seq<SetterOpView>
    decreases parts.len(),
{
    if parts.len() == 0 {
        Seq::empty()
    } else {
        all_setters(parts.drop_last()) + parts.last().setters
    }
}

/// The name of the builder of a record: the record's name with `Builder`
/// behind it.
pub open spec fn builder_name_of(record: Seq<char>) -> Seq<char> {
    record + "Builder"@
}

/// The artifact that the parts of all fields compose.
pub open spec fn artifact_of(
    record: Seq<char>,
    parts: Seq<FieldPartsView>,
    build: EffectiveBuildConfigView,
    derives: Seq<Seq<char>>,
) -> SynthesizedArtifactView {
    SynthesizedArtifactView {
        builder_name: builder_name_of(record),
        storage: all_storage(parts),
        setters: all_setters(parts),
        build: build_op_of(record, build, all_initializers(parts)),
        derives,
    }
}

/// The outcome of the assembly: the artifact, or the first field whose
/// parts do not fit together.
pub open spec fn assembly_of(
    record: Seq<char>,
    parts: Seq<FieldPartsView>,
    build: EffectiveBuildConfigView,
    derives: Seq<Seq<char>>,
) -> Result<SynthesizedArtifactView, ConsistencyError> {
    match first_inconsistent(parts) {
        Some(i) => Err(ConsistencyError { field: i as usize }),
        None => Ok(artifact_of(record, parts, build, derives)),
    }
}

/// Counts the setters that cannot fail.
fn count_plain(setters: &Vec<SetterOp>) -> (r: usize)
    ensures
        r == plain_count(views_of(setters@)),
{
    let mut count: usize = 0;
    let mut k: usize = 0;
    proof {
        assert(views_of(setters@).take(0) =~= Seq::empty());
    }
    while k < setters.len()
        invariant
            k <= setters.len(),
            count <= k,
            count == plain_count(views_of(setters@).take(k as int)),
        decreases setters.len() - k,
    {
        proof {
            let all = views_of(setters@);
            assert(all.take(k + 1).drop_last() =~= all.take(k as int));
            assert(all.take(k + 1).last() == setters@[k as int]@);
        }
        match setters[k].parameter {
            Parameter::FallibleConvertsInto => {},
            _ => {
                count = count + 1;
            },
        }
        k = k + 1;
    }
    proof {
        assert(views_of(setters@).take(k as int) =~= views_of(setters@));
    }
    count
}

/// Decides whether all the setters name the field at position `index`.
fn setters_name(setters: &Vec<SetterOp>, index: usize) -> (r: bool)
    ensures
        r == (forall|k: int|
            0 <= k < setters@.len() ==> (#[trigger] views_of(setters@)[k]).field == index),
{
    let mut k: usize = 0;
    while k < setters.len()
        invariant
            k <= setters.len(),
            forall|j: int| 0 <= j < k ==> (#[trigger] views_of(setters@)[j]).field == index,
        decreases setters.len() - k,
    {
        if setters[k].field != index {
            assert(views_of(setters@)[k as int].field != index);
            return false;
        }
        k = k + 1;
    }
    true
}

/// Decides whether what was synthesized for the field at position `index`
/// fits together.
pub fn check_consistent(p: &FieldParts, index: usize) -> (r: bool)
    ensures
        r == consistent(p@, index as int),
{
    let one_plain = count_plain(&p.setters) == 1;
    let required = match &p.initializer.fallback {
        DefaultRule::Required => true,
        _ => false,
    };
    let defaulted = p.setters.len() == 0 && !required;
    one_plain != defaulted && setters_name(&p.setters, index) && same_text(
        p.initializer.field.as_str(),
        p.storage.name.as_str(),
    )
}

/// Appending the parts of one more field appends its setters.
proof fn lemma_all_setters_push(parts: Seq<FieldPartsView>, p: FieldPartsView)
    ensures
        all_setters(parts.push(p)) == all_setters(parts) + p.setters,
{
    assert(parts.push(p).drop_last() =~= parts);
}

/// Composes the parts of all fields of the record `record` into the
/// artifact, after checking that the parts of every field fit together.
///
/// The artifact holds the storage fields and the setters in the order of
/// the fields, the build operation unless it is skipped, and the `derives`
/// as they are. Where the parts of a field do not fit together, the first
/// such field is reported and no artifact is made.
pub fn assemble(
    record: &str,
    parts: &Vec<FieldParts>,
    build: &EffectiveBuildConfig,
    derives: Vec<String>,
) -> (r: Result<SynthesizedArtifact, ConsistencyError>)
    ensures
        match r {
            Ok(a) => assembly_of(record@, views_of(parts@), build@, views_of(derives@)) == Ok::<
                SynthesizedArtifactView,
                ConsistencyError,
            >(a@),
            Err(e) => assembly_of(record@, views_of(parts@), build@, views_of(derives@)) == Err::<
                SynthesizedArtifactView,
                ConsistencyError,
            >(e),
        },
        r matches Ok(a) ==> a@.well_formed(),
{
    let ghost all = views_of(parts@);
    let mut storage: Vec<StorageField> = Vec::new();
    let mut setters: Vec<SetterOp> = Vec::new();
    let mut initializers: Vec<Initializer> = Vec::new();
    let mut i: usize = 0;
    proof {
        assert(all.take(0) =~= Seq::empty());
        assert(views_of(storage@) =~= all_storage(all.take(0)));
        assert(views_of(initializers@) =~= all_initializers(all.take(0)));
        assert(views_of(setters@) =~= all_setters(all.take(0)));
    }
    while i < parts.len()
        invariant
            all == views_of(parts@),
            i <= parts.len(),
            first_inconsistent(all.take(i as int)) is None,
            views_of(storage@) == all_storage(all.take(i as int)),
            views_of(initializers@) == all_initializers(all.take(i as int)),
            views_of(setters@) == all_setters(all.take(i as int)),
        decreases parts.len() - i,
    {
        let p = &parts[i];
        proof {
            assert(all.take(i + 1).drop_last() =~= all.take(i as int));
            assert(all.take(i + 1).last() == p@);
            assert(all.take(i + 1) =~= all.take(i as int).push(p@));
        }
        if !check_consistent(p, i) {
            proof {
                lemma_inconsistent_stays(all, i + 1);
            }
            return Err(ConsistencyError { field: i });
        }
        let s = p.storage.copy();
        let init = p.initializer.copy();
        proof {
            views_of_push(storage@, s);
            views_of_push(initializers@, init);
            assert(all_storage(all.take(i + 1)) =~= all_storage(all.take(i as int)).push(
                p@.storage,
            ));
            assert(all_initializers(all.take(i + 1)) =~= all_initializers(
                all.take(i as int),
            ).push(p@.initializer));
            lemma_all_setters_push(all.take(i as int), p@);
        }
        storage.push(s);
        initializers.push(init);
        let ghost before = views_of(setters@);
        let mut k: usize = 0;
        while k < p.setters.len()
            invariant
                k <= p.setters.len(),
                views_of(setters@) == before + views_of(p.setters@).take(k as int),
            decreases p.setters.len() - k,
        {
            let op = p.setters[k].copy();
            proof {
                views_of_push(setters@, op);
                assert(views_of(p.setters@).take(k + 1) =~= views_of(p.setters@).take(
                    k as int,
                ).push(op@));
                assert((before + views_of(p.setters@).take(k as int)).push(op@) =~= before
                    + views_of(p.setters@).take(k + 1));
            }
            setters.push(op);
            k = k + 1;
        }
        proof {
            assert(views_of(p.setters@).take(k as int) =~= views_of(p.setters@));
        }
        i = i + 1;
    }
    proof {
        assert(all.take(i as int) =~= all);
        lemma_assembly_well_formed(record@, all, build@, views_of(derives@));
    }
    let mut builder_name = String::from_str(record);
    builder_name.append("Builder");
    Ok(
        SynthesizedArtifact {
            builder_name,
            storage,
            setters,
            build: synthesize_build(record, build, initializers),
            derives,
        },
    )
}

/// Where the parts of every field fit together, every setter stores into
/// a field, and the setters come in the order of their fields.
pub proof fn lemma_consistent_setters(parts: Seq<FieldPartsView>)
    requires
        first_inconsistent(parts) is None,
    ensures
        forall|k: int|
            0 <= k < all_setters(parts).len() ==> (#[trigger] all_setters(parts)[k]).field
                < parts.len(),
        forall|j: int, k: int|
            0 <= j <= k < all_setters(parts).len() ==> (#[trigger] all_setters(parts)[j]).field <= (
            #[trigger] all_setters(parts)[k]).field,
        forall|i: int|
            0 <= i < parts.len() ==> (#[trigger] parts[i]).initializer.field
                == parts[i].storage.name,
    decreases parts.len(),
{
    if parts.len() > 0 {
        let front = parts.drop_last();
        let n = parts.len() - 1;
        lemma_consistent_setters(front);
        assert(consistent(parts.last(), n));
        let before = all_setters(front);
        let all = all_setters(parts);
        assert(all == before + parts.last().setters);
        assert forall|k: int| 0 <= k < all.len() implies (#[trigger] all[k]).field <= n && (k
            >= before.len() ==> all[k].field == n) && (k < before.len() ==> all[k].field < n) by {
            if k < before.len() {
                assert(all[k] == before[k]);
            } else {
                assert(all[k] == parts.last().setters[k - before.len()]);
            }
        }
        assert forall|j: int, k: int| 0 <= j <= k < all.len() implies (#[trigger] all[j]).field
            <= (#[trigger] all[k]).field by {
            if k < before.len() {
                assert(all[j] == before[j]);
                assert(all[k] == before[k]);
            }
        }
        assert forall|i: int| 0 <= i < parts.len() implies (#[trigger] parts[i]).initializer.field
            == parts[i].storage.name by {
            if i < n {
                assert(parts[i] == front[i]);
            }
        }
    }
}

/// The setter `op` is among the setters of one of the fields.
pub open spec fn is_setter_of_a_field(parts: Seq<FieldPartsView>, op: SetterOpView) -> bool {
    exists|i: int| 0 <= i < parts.len() && (#[trigger] parts[i]).setters.contains(op)
}

/// The setters of the artifact are the setters of the fields: every
/// setter of a field is among them, and each of them is a setter of a
/// field.
pub proof fn lemma_all_setters_members(parts: Seq<FieldPartsView>)
    ensures
        forall|i: int, j: int|
            0 <= i < parts.len() && 0 <= j < parts[i].setters.len() ==> all_setters(
                parts,
            ).contains(#[trigger] parts[i].setters[j]),
        forall|k: int|
            0 <= k < all_setters(parts).len() ==> is_setter_of_a_field(
                parts,
                #[trigger] all_setters(parts)[k],
            ),
    decreases parts.len(),
{
    if parts.len() > 0 {
        let front = parts.drop_last();
        let n = parts.len() - 1;
        lemma_all_setters_members(front);
        let before = all_setters(front);
        let all = all_setters(parts);
        assert(all == before + parts.last().setters);
        assert forall|i: int, j: int|
            0 <= i < parts.len() && 0 <= j < parts[i].setters.len() implies all.contains(
            #[trigger] parts[i].setters[j],
        ) by {
            if i < n {
                assert(parts[i] == front[i]);
                assert(before.contains(front[i].setters[j]));
                let k = choose|k: int| 0 <= k < before.len() && before[k] == front[i].setters[j];
                assert(all[k] == before[k]);
            } else {
                assert(all[before.len() + j] == parts[i].setters[j]);
            }
        }
        assert forall|k: int| 0 <= k < all.len() implies is_setter_of_a_field(
            parts,
            #[trigger] all[k],
        ) by {
            if k < before.len() {
                assert(all[k] == before[k]);
                assert(is_setter_of_a_field(front, before[k]));
                let i = choose|i: int|
                    0 <= i < front.len() && (#[trigger] front[i]).setters.contains(before[k]);
                assert(parts[i] == front[i]);
            } else {
                assert(all[k] == parts[n].setters[k - before.len()]);
                assert(parts[n].setters.contains(all[k]));
            }
        }
    }
}

/// Where the parts of every field fit together, each setter of the
/// artifact is a setter of the field into which it stores.
pub proof fn lemma_setters_of_their_fields(parts: Seq<FieldPartsView>)
    requires
        first_inconsistent(parts) is None,
    ensures
        forall|k: int|
            0 <= k < all_setters(parts).len() ==> {
                &&& (#[trigger] all_setters(parts)[k]).field < parts.len()
                &&& parts[all_setters(parts)[k].field as int].setters.contains(
                    all_setters(parts)[k],
                )
            },
{
    lemma_consistent_setters(parts);
    lemma_all_setters_members(parts);
    lemma_each_consistent(parts);
    assert forall|k: int| 0 <= k < all_setters(parts).len() implies {
        &&& (#[trigger] all_setters(parts)[k]).field < parts.len()
        &&& parts[all_setters(parts)[k].field as int].setters.contains(all_setters(parts)[k])
    } by {
        let op = all_setters(parts)[k];
        assert(is_setter_of_a_field(parts, op));
        let i = choose|i: int| 0 <= i < parts.len() && (#[trigger] parts[i]).setters.contains(op);
        let j = choose|j: int| 0 <= j < parts[i].setters.len() && parts[i].setters[j] == op;
        assert(consistent(parts[i], i));
        assert(parts[i].setters[j].field == i);
    }
}

/// Where no field is the first whose parts do not fit together, the parts
/// of every field fit together.
pub proof fn lemma_each_consistent(parts: Seq<FieldPartsView>)
    requires
        first_inconsistent(parts) is None,
    ensures
        forall|i: int| 0 <= i < parts.len() ==> consistent(#[trigger] parts[i], i),
    decreases parts.len(),
{
    if parts.len() > 0 {
        let front = parts.drop_last();
        lemma_each_consistent(front);
        assert forall|i: int| 0 <= i < parts.len() implies consistent(#[trigger] parts[i], i) by {
            if i < parts.len() - 1 {
                assert(parts[i] == front[i]);
            }
        }
    }
}

/// An artifact that is assembled is well formed.
pub proof fn lemma_assembly_well_formed(
    record: Seq<char>,
    parts: Seq<FieldPartsView>,
    build: EffectiveBuildConfigView,
    derives: Seq<Seq<char>>,
)
    requires
        assembly_of(record, parts, build, derives) is Ok,
    ensures
        (assembly_of(record, parts, build, derives)->Ok_0).well_formed(),
        (assembly_of(record, parts, build, derives)->Ok_0).storage.len() == parts.len(),
{
    lemma_consistent_setters(parts);
}

/// Once a front part of the fields holds a field whose parts do not fit
/// together, that field is the first such field of all.
pub proof fn lemma_inconsistent_stays(parts: Seq<FieldPartsView>, k: int)
    requires
        0 <= k <= parts.len(),
        first_inconsistent(parts.take(k)) is Some,
    ensures
        first_inconsistent(parts) == first_inconsistent(parts.take(k)),
    decreases parts.len() - k,
{
    if k < parts.len() {
        assert(parts.take(k + 1).drop_last() =~= parts.take(k));
        lemma_inconsistent_stays(parts, k + 1);
    } else {
        assert(parts.take(k) =~= parts);
    }
}

} // verus!
