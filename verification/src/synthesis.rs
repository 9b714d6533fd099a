//! The engine as a whole: from the schema of a record to the description
//! of its builder, in one pass over the fields.

use vstd::prelude::*;
use crate::artifact::{
    artifact_of, assemble, consistent, first_inconsistent,
    lemma_assembly_well_formed, plain_count,
    SynthesisError, SynthesisErrorView, SynthesizedArtifact, SynthesizedArtifactView,
};
use crate::directive::{ConfigurationError, ConfigurationErrorView, Scope};
use crate::field::{field_parts, setters_of, synthesize_field, FieldParts, FieldPartsView};
use crate::interpret::{directives_of, parse_directives};
use crate::resolve::{
    effective_build, field_resolution, obtainable, resolve_build, resolve_field, settings_of,
    EffectiveFieldConfigView, Settings, SettingsView,
};
use crate::schema::{FieldSchema, FieldSchemaView, RecordSchema, RecordSchemaView};
use crate::text::{copy_texts, views_of, views_of_empty, views_of_push};

verus! {

/// What is synthesized for the field at position `index` of a record with
/// the settings `record`: its parts, or the refusal of its directives or
/// of its resolution.
pub open spec fn field_outcome(record: SettingsView, index: usize, f: FieldSchemaView) -> Result<
    FieldPartsView,
    ConfigurationErrorView,
> {
    match directives_of(f.directives, Scope::Field) {
        Err(e) => Err(e),
        Ok(ds) => match field_resolution(record, settings_of(ds), f.name) {
            Err(e) => Err(e),
            Ok(c) => Ok(field_parts(index, f, c, effective_build(record).pattern)),
        },
    }
}

/// The settings of a record whose directives are accepted.
pub open spec fn record_settings(schema: RecordSchemaView) -> SettingsView {
    settings_of(directives_of(schema.directives, Scope::Record)->Ok_0)
}

/// The effective configuration of a field that is accepted, in a record
/// with the settings `record`.
pub open spec fn config_of(record: SettingsView, f: FieldSchemaView) -> EffectiveFieldConfigView {
    field_resolution(
        record,
        settings_of(directives_of(f.directives, Scope::Field)->Ok_0),
        f.name,
    )->Ok_0
}

/// What is synthesized for the fields of a record with the settings
/// `record`: the parts of all fields in order, or the refusal of the first
/// field that is refused, with its position.
pub open spec fn fields_outcome(record: SettingsView, fields: Seq<FieldSchemaView>) -> Result<
    Seq<FieldPartsView>,
    SynthesisErrorView,
>
    decreases fields.len(),
{
    if fields.len() == 0 {
        Ok(Seq::empty())
    } else {
        match fields_outcome(record, fields.drop_last()) {
            Err(e) => Err(e),
            Ok(parts) => {
                let index = (fields.len() - 1) as usize;
                match field_outcome(record, index, fields.last()) {
                    Ok(p) => Ok(parts.push(p)),
                    Err(e) => Err(
                        SynthesisErrorView::Configuration { error: e, field: Some(index) },
                    ),
                }
            },
        }
    }
}

/// What is synthesized for a record: the description of its builder, or
/// the refusal of the record's directives, or else of its first field that
/// is refused.
pub open spec fn synthesis_of(schema: RecordSchemaView) -> Result<
    SynthesizedArtifactView,
    SynthesisErrorView,
> {
    match directives_of(schema.directives, Scope::Record) {
        Err(e) => Err(SynthesisErrorView::Configuration { error: e, field: None }),
        Ok(ds) => {
            let record = settings_of(ds);
            match fields_outcome(record, schema.fields) {
                Err(e) => Err(e),
                Ok(parts) => Ok(
                    artifact_of(schema.name, parts, effective_build(record), record.derives),
                ),
            }
        },
    }
}

/// Synthesizes the parts of the field at position `index` of a record with
/// the settings `record`.
pub fn field_for_struct(record: &Settings, index: usize, f: &FieldSchema) -> (r: Result<
    FieldParts,
    ConfigurationError,
>)
    ensures
        match r {
            Ok(p) => field_outcome(record@, index, f@) == Ok::<
                FieldPartsView,
                ConfigurationErrorView,
            >(p@),
            Err(e) => field_outcome(record@, index, f@) == Err::<
                FieldPartsView,
                ConfigurationErrorView,
            >(e@),
        },
{
    match parse_directives(f.directives.as_str(), Scope::Field) {
        Err(e) => Err(e),
        Ok(ds) => {
            let settings = Settings::from_directives(&ds);
            match resolve_field(record, &settings, f.name.as_str()) {
                Err(e) => Err(e),
                Ok(c) => Ok(synthesize_field(index, f, &c, resolve_build(record).pattern)),
            }
        },
    }
}

/// The parts that are synthesized for a field fit together.
pub proof fn lemma_field_outcome_consistent(record: SettingsView, index: usize, f: FieldSchemaView)
    requires
        field_outcome(record, index, f) is Ok,
    ensures
        consistent(field_outcome(record, index, f)->Ok_0, index as int),
{
    let p = field_outcome(record, index, f)->Ok_0;
    let ds = directives_of(f.directives, Scope::Field)->Ok_0;
    let c = field_resolution(record, settings_of(ds), f.name)->Ok_0;
    assert(obtainable(c));
    if c.setter_enabled {
        let plain = p.setters[0];
        assert(p.setters.take(1).drop_last() =~= Seq::empty());
        assert(plain_count(p.setters.take(1).drop_last()) == 0);
        assert(plain_count(p.setters.take(1)) == 1);
        if c.try_setter {
            assert(p.setters.drop_last() =~= p.setters.take(1));
        } else {
            assert(p.setters.take(1) =~= p.setters);
        }
    }
}

/// Once a front part of the fields is refused, all the fields are refused
/// with the same error.
pub proof fn lemma_fields_refusal_stays(record: SettingsView, fields: Seq<FieldSchemaView>, k: int)
    requires
        0 <= k <= fields.len(),
        fields_outcome(record, fields.take(k)) is Err,
    ensures
        fields_outcome(record, fields) == fields_outcome(record, fields.take(k)),
    decreases fields.len() - k,
{
    if k < fields.len() {
        assert(fields.take(k + 1).drop_last() =~= fields.take(k));
        lemma_fields_refusal_stays(record, fields, k + 1);
    } else {
        assert(fields.take(k) =~= fields);
    }
}

/// Where no field is refused, the parts of the fields are what is
/// synthesized for each field by itself.
pub proof fn lemma_fields_outcome_each(record: SettingsView, fields: Seq<FieldSchemaView>)
    requires
        fields_outcome(record, fields) is Ok,
        fields.len() <= usize::MAX,
    ensures
        (fields_outcome(record, fields)->Ok_0).len() == fields.len(),
        forall|i: int|
            0 <= i < fields.len() ==> field_outcome(record, i as usize, #[trigger] fields[i])
                == Ok::<FieldPartsView, ConfigurationErrorView>(
                (fields_outcome(record, fields)->Ok_0)[i],
            ),
    decreases fields.len(),
{
    if fields.len() > 0 {
        let front = fields.drop_last();
        lemma_fields_outcome_each(record, front);
        assert forall|i: int| 0 <= i < fields.len() implies field_outcome(
            record,
            i as usize,
            #[trigger] fields[i],
        ) == Ok::<FieldPartsView, ConfigurationErrorView>(
            (fields_outcome(record, fields)->Ok_0)[i],
        ) by {
            if i < fields.len() - 1 {
                assert(fields[i] == front[i]);
            }
        }
    }
}

/// Where no field is refused, the setters of each field are those that
/// the field's effective configuration asks for.
pub proof fn lemma_fields_outcome_setters(record: SettingsView, fields: Seq<FieldSchemaView>)
    requires
        fields_outcome(record, fields) is Ok,
        fields.len() <= usize::MAX,
    ensures
        (fields_outcome(record, fields)->Ok_0).len() == fields.len(),
        forall|i: int|
            0 <= i < fields.len() ==> (#[trigger] (fields_outcome(record, fields)->Ok_0)[i]).setters
                == setters_of(i as usize, fields[i], config_of(record, fields[i])),
{
    lemma_fields_outcome_each(record, fields);
    let parts = fields_outcome(record, fields)->Ok_0;
    assert forall|i: int| 0 <= i < fields.len() implies (#[trigger] parts[i]).setters
        == setters_of(i as usize, fields[i], config_of(record, fields[i])) by {
        assert(field_outcome(record, i as usize, fields[i]) is Ok);
    }
}

/// Where every field is accepted by itself, the fields are accepted
/// together.
pub proof fn lemma_fields_outcome_accepts(record: SettingsView, fields: Seq<FieldSchemaView>)
    requires
        fields.len() <= usize::MAX,
        forall|i: int|
            0 <= i < fields.len() ==> #[trigger] field_outcome(record, i as usize, fields[i]) is Ok,
    ensures
        fields_outcome(record, fields) is Ok,
    decreases fields.len(),
{
    if fields.len() > 0 {
        let front = fields.drop_last();
        assert forall|i: int| 0 <= i < front.len() implies #[trigger] field_outcome(
            record,
            i as usize,
            front[i],
        ) is Ok by {
            assert(front[i] == fields[i]);
            assert(field_outcome(record, i as usize, fields[i]) is Ok);
        }
        lemma_fields_outcome_accepts(record, front);
        let n = fields.len() - 1;
        assert(field_outcome(record, n as usize, fields[n]) is Ok);
    }
}

/// Where a field is refused, the refusal that is reported is that of the
/// first field that is refused by itself, with the position of that field.
pub proof fn lemma_fields_outcome_refusal(record: SettingsView, fields: Seq<FieldSchemaView>)
    requires
        fields_outcome(record, fields) is Err,
        fields.len() <= usize::MAX,
    ensures
        exists|i: int|
            {
                &&& 0 <= i < fields.len()
                &&& #[trigger] field_outcome(record, i as usize, fields[i]) is Err
                &&& forall|k: int|
                    0 <= k < i ==> #[trigger] field_outcome(record, k as usize, fields[k]) is Ok
                &&& fields_outcome(record, fields) == Err::<
                    Seq<FieldPartsView>,
                    SynthesisErrorView,
                >(
                    SynthesisErrorView::Configuration {
                        error: field_outcome(record, i as usize, fields[i])->Err_0,
                        field: Some(i as usize),
                    },
                )
            },
    decreases fields.len(),
{
    let front = fields.drop_last();
    let n = fields.len() - 1;
    if fields_outcome(record, front) is Err {
        lemma_fields_outcome_refusal(record, front);
        let i = choose|i: int|
            {
                &&& 0 <= i < front.len()
                &&& #[trigger] field_outcome(record, i as usize, front[i]) is Err
                &&& forall|k: int|
                    0 <= k < i ==> #[trigger] field_outcome(record, k as usize, front[k]) is Ok
                &&& fields_outcome(record, front) == Err::<
                    Seq<FieldPartsView>,
                    SynthesisErrorView,
                >(
                    SynthesisErrorView::Configuration {
                        error: field_outcome(record, i as usize, front[i])->Err_0,
                        field: Some(i as usize),
                    },
                )
            };
        assert(fields[i] == front[i]);
        assert forall|k: int| 0 <= k < i implies #[trigger] field_outcome(
            record,
            k as usize,
            fields[k],
        ) is Ok by {
            assert(fields[k] == front[k]);
            assert(field_outcome(record, k as usize, front[k]) is Ok);
        }
        assert(field_outcome(record, i as usize, fields[i]) is Err);
    } else {
        lemma_fields_outcome_each(record, front);
        assert forall|k: int| 0 <= k < n implies #[trigger] field_outcome(
            record,
            k as usize,
            fields[k],
        ) is Ok by {
            assert(fields[k] == front[k]);
            assert(field_outcome(record, k as usize, front[k]) is Ok);
        }
        assert(field_outcome(record, n as usize, fields[n]) is Err);
    }
}

/// The parts that are synthesized for the fields of a record fit
/// together, field by field.
pub proof fn lemma_fields_outcome_consistent(record: SettingsView, fields: Seq<FieldSchemaView>)
    requires
        fields_outcome(record, fields) is Ok,
        fields.len() <= usize::MAX,
    ensures
        fields_outcome(record, fields)->Ok_0.len() == fields.len(),
        first_inconsistent(fields_outcome(record, fields)->Ok_0) is None,
    decreases fields.len(),
{
    if fields.len() > 0 {
        lemma_fields_outcome_consistent(record, fields.drop_last());
        let index = (fields.len() - 1) as usize;
        lemma_field_outcome_consistent(record, index, fields.last());
        let parts = fields_outcome(record, fields)->Ok_0;
        assert(parts.drop_last() =~= fields_outcome(record, fields.drop_last())->Ok_0);
    }
}

/// Synthesizes the description of the builder of a record.
///
/// The directives of the record are read and collected first. Then the
/// fields are taken in the order of their declaration: the directives of a
/// field are read, merged with those of the record, and the field's
/// storage field, setters and initializer are synthesized. At the end the
/// parts are assembled. The first directive text or field that is refused
/// ends the synthesis, and no artifact is made. A fault of consistency is
/// never reported: what the engine synthesizes fits together.
pub fn builder_for_struct(schema: &RecordSchema) -> (r: Result<SynthesizedArtifact, SynthesisError>)
    ensures
        match r {
            Ok(a) => synthesis_of(schema@) == Ok::<SynthesizedArtifactView, SynthesisErrorView>(
                a@,
            ),
            Err(e) => synthesis_of(schema@) == Err::<SynthesizedArtifactView, SynthesisErrorView>(
                e@,
            ),
        },
        r matches Err(e) ==> e is Configuration,
        r matches Ok(a) ==> a@.well_formed() && a@.storage.len() == schema@.fields.len(),
{
    let record = match parse_directives(schema.directives.as_str(), Scope::Record) {
        Err(e) => {
            return Err(SynthesisError::Configuration { error: e, field: None });
        },
        Ok(ds) => Settings::from_directives(&ds),
    };
    let ghost said = directives_of(schema@.directives, Scope::Record);
    let ghost fields = views_of(schema.fields@);
    let mut parts: Vec<FieldParts> = Vec::new();
    let mut i: usize = 0;
    proof {
        views_of_empty::<FieldParts>();
        assert(fields.take(0) =~= Seq::empty());
    }
    while i < schema.fields.len()
        invariant
            fields == views_of(schema.fields@),
            i <= schema.fields.len(),
            said == directives_of(schema@.directives, Scope::Record),
            said is Ok,
            record@ == settings_of(said->Ok_0),
            fields_outcome(record@, fields.take(i as int)) == Ok::<
                Seq<FieldPartsView>,
                SynthesisErrorView,
            >(views_of(parts@)),
        decreases schema.fields.len() - i,
    {
        proof {
            assert(fields.take(i + 1).drop_last() =~= fields.take(i as int));
            assert(fields.take(i + 1).last() == schema.fields@[i as int]@);
        }
        match field_for_struct(&record, i, &schema.fields[i]) {
            Err(e) => {
                proof {
                    lemma_fields_refusal_stays(record@, fields, i + 1);
                }
                return Err(SynthesisError::Configuration { error: e, field: Some(i) });
            },
            Ok(p) => {
                proof {
                    views_of_push(parts@, p);
                }
                parts.push(p);
            },
        }
        i = i + 1;
    }
    proof {
        assert(fields.take(i as int) =~= fields);
        lemma_fields_outcome_consistent(record@, fields);
    }
    let build = resolve_build(&record);
    proof {
        lemma_assembly_well_formed(
            schema@.name,
            views_of(parts@),
            build@,
            views_of(record.derives@),
        );
    }
    match assemble(schema.name.as_str(), &parts, &build, copy_texts(&record.derives)) {
        Ok(a) => Ok(a),
        Err(e) => {
            assert(false);
            Err(SynthesisError::Consistency(e))
        },
    }
}

} // verus!
