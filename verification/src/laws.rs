//! What holds of every synthesized builder, proved from the meaning of its
//! operations.

use vstd::prelude::*;
use crate::artifact::{
    all_setters, builder_name_of, lemma_all_setters_members, lemma_setters_of_their_fields,
    SynthesisErrorView,
};
use crate::build_op::{build_op_of, BuildOpView};
use crate::directive::{ConfigurationErrorView, DirectiveView, Pattern, Scope};
use crate::grammar::{all_well_keyed, entries_of, law_entries_are_well_keyed, well_keyed, EntryView};
use crate::interpret::{directives_of, readings};
use crate::field::{
    fallible_setter_of, plain_setter_of, setters_of, storage_of, FieldPartsView,
    InitializerView, Parameter, SetterOpView,
};
use crate::pattern::Receiver;
use crate::resolve::{
    effective_field, obtainable, settings_of, try_setter_hazard, EffectiveBuildConfigView,
    EffectiveFieldConfigView, SettingsView,
};
use crate::runtime::{
    build_effect, build_result, setter_effect, slot_value, stored, unset, values_upto,
    BuildErrorView, RecordView,
};
use crate::schema::{FieldSchemaView, RecordSchemaView};
use crate::text::is_identifier;
use crate::synthesis::{
    config_of, field_outcome, fields_outcome, lemma_fields_outcome_accepts,
    lemma_fields_outcome_consistent, lemma_fields_outcome_each, lemma_fields_outcome_refusal,
    lemma_fields_outcome_setters, record_settings, synthesis_of,
};

verus! {

/// The field at position `k` gets no value: its slot is empty, and it has
/// no default or its default fails.
pub open spec fn lacks(
    inits: Seq<InitializerView>,
    slots: Seq<Option<Seq<char>>>,
    defaults: Seq<Result<Seq<char>, Seq<char>>>,
    k: int,
) -> bool {
    slots[k] is None && (inits[k].fallback is Required || defaults[k] is Err)
}

/// The value that the field at position `k` gets: what its slot holds,
/// else what its default gives.
pub open spec fn obtained_value(
    slots: Seq<Option<Seq<char>>>,
    defaults: Seq<Result<Seq<char>, Seq<char>>>,
    k: int,
) -> Seq<char> {
    match slots[k] {
        Some(v) => v,
        None => defaults[k]->Ok_0,
    }
}

/// Where every one of the first `n` fields gets a value, the values of
/// these fields are what the slots hold and, for the empty slots, what the
/// defaults give.
pub proof fn lemma_all_values(
    inits: Seq<InitializerView>,
    slots: Seq<Option<Seq<char>>>,
    defaults: Seq<Result<Seq<char>, Seq<char>>>,
    n: int,
)
    requires
        0 <= n,
        forall|k: int| 0 <= k < n ==> !lacks(inits, slots, defaults, k),
    ensures
        values_upto(inits, slots, defaults, n) is Ok,
        (values_upto(inits, slots, defaults, n)->Ok_0).len() == n,
        forall|k: int|
            0 <= k < n ==> (values_upto(inits, slots, defaults, n)->Ok_0)[k] == obtained_value(
                slots,
                defaults,
                k,
            ),
    decreases n,
{
    if n > 0 {
        lemma_all_values(inits, slots, defaults, n - 1);
        assert(!lacks(inits, slots, defaults, n - 1));
    }
}

/// The build stops at the first field that gets no value, with the
/// failure of that field.
pub proof fn lemma_first_failure(
    inits: Seq<InitializerView>,
    slots: Seq<Option<Seq<char>>>,
    defaults: Seq<Result<Seq<char>, Seq<char>>>,
    i: int,
    n: int,
)
    requires
        0 <= i < n,
        lacks(inits, slots, defaults, i),
        forall|k: int| 0 <= k < i ==> !lacks(inits, slots, defaults, k),
    ensures
        slot_value(inits[i], i, slots[i], defaults[i]) is Err,
        values_upto(inits, slots, defaults, n) == Err::<Seq<Seq<char>>, BuildErrorView>(
            slot_value(inits[i], i, slots[i], defaults[i])->Err_0,
        ),
    decreases n,
{
    if n == i + 1 {
        lemma_all_values(inits, slots, defaults, i);
    } else {
        lemma_first_failure(inits, slots, defaults, i, n - 1);
    }
}

/// One call of a setter: the setter, and the value that it is to store.
pub struct SetterCall {
    pub op: SetterOpView,
    pub value: Seq<char>,
}

/// The state of a builder after a run of setter calls, each made on the
/// builder that the call before it handed back.
pub open spec fn after_calls(slots: Seq<Option<Seq<char>>>, calls: Seq<SetterCall>) -> Seq<
    Option<Seq<char>>,
>
    decreases calls.len(),
{
    if calls.len() == 0 {
        slots
    } else {
        setter_effect(
            calls.last().op,
            after_calls(slots, calls.drop_last()),
            Ok(calls.last().value),
        ).handed_back->Ok_0
    }
}

/// The value of the last call in a run of setter calls that stores into
/// the field at position `k`.
pub open spec fn last_write(calls: Seq<SetterCall>, k: int) -> Option<Seq<char>>
    decreases calls.len(),
{
    if calls.len() == 0 {
        None
    } else if calls.last().op.field == k {
        Some(calls.last().value)
    } else {
        last_write(calls.drop_last(), k)
    }
}

/// The calls of a run all store into fields of a builder with `n`
/// fields.
pub open spec fn calls_fit(calls: Seq<SetterCall>, n: int) -> bool {
    forall|c: int| 0 <= c < calls.len() ==> (#[trigger] calls[c]).op.field < n
}

/// After a run of setter calls a slot holds the value of the last call
/// that stored into it, and is as it was where no call did.
pub proof fn lemma_after_calls(slots: Seq<Option<Seq<char>>>, calls: Seq<SetterCall>)
    requires
        calls_fit(calls, slots.len() as int),
    ensures
        after_calls(slots, calls).len() == slots.len(),
        forall|k: int|
            0 <= k < slots.len() ==> (#[trigger] after_calls(slots, calls)[k]) == (match last_write(
                calls,
                k,
            ) {
                Some(v) => Some(v),
                None => slots[k],
            }),
    decreases calls.len(),
{
    if calls.len() > 0 {
        let front = calls.drop_last();
        assert forall|c: int| 0 <= c < front.len() implies (#[trigger] front[c]).op.field
            < slots.len() by {
            assert(front[c] == calls[c]);
        }
        lemma_after_calls(slots, front);
        assert(calls.last() == calls[calls.len() - 1]);
    }
}

/// A field that is never set and has no default is named by the build:
/// in a record whose fields all lack a default, after a run of setter
/// calls that stores into every field but the one at position `i`, the
/// build fails with the missing field at position `i`, whatever values the
/// other fields were given.
pub proof fn law_missing_field_is_named(
    op: BuildOpView,
    calls: Seq<SetterCall>,
    defaults: Seq<Result<Seq<char>, Seq<char>>>,
    verdict: Result<(), Seq<char>>,
    i: int,
)
    requires
        op.initializers.len() <= usize::MAX,
        0 <= i < op.initializers.len(),
        calls_fit(calls, op.initializers.len() as int),
        forall|k: int| 0 <= k < op.initializers.len() ==> op.initializers[k].fallback is Required,
        last_write(calls, i) is None,
        forall|k: int| 0 <= k < op.initializers.len() && k != i ==> last_write(calls, k) is Some,
    ensures
        build_result(op, after_calls(unset(op.initializers.len()), calls), defaults, verdict)
            == Err::<RecordView, BuildErrorView>(
            BuildErrorView::MissingField { index: i as usize, field: op.initializers[i].field },
        ),
{
    let n = op.initializers.len() as int;
    let slots = after_calls(unset(n as nat), calls);
    lemma_after_calls(unset(n as nat), calls);
    assert forall|k: int| 0 <= k < i implies !lacks(op.initializers, slots, defaults, k) by {
        assert(slots[k] is Some);
    }
    assert(slots[i] is None);
    lemma_first_failure(op.initializers, slots, defaults, i, n);
}

/// The first missing field wins: where the fields at positions `i` and
/// `j`, `i` before `j`, are both unset and without a default, and every
/// field before `i` gets a value, the build fails with the missing field
/// at position `i`.
pub proof fn law_first_missing_field_wins(
    op: BuildOpView,
    slots: Seq<Option<Seq<char>>>,
    defaults: Seq<Result<Seq<char>, Seq<char>>>,
    verdict: Result<(), Seq<char>>,
    i: int,
    j: int,
)
    requires
        op.initializers.len() <= usize::MAX,
        0 <= i < j < op.initializers.len(),
        slots[i] is None && op.initializers[i].fallback is Required,
        slots[j] is None && op.initializers[j].fallback is Required,
        forall|k: int| 0 <= k < i ==> !lacks(op.initializers, slots, defaults, k),
    ensures
        build_result(op, slots, defaults, verdict) == Err::<RecordView, BuildErrorView>(
            BuildErrorView::MissingField { index: i as usize, field: op.initializers[i].field },
        ),
{
    lemma_first_failure(op.initializers, slots, defaults, i, op.initializers.len() as int);
}

/// A later missing field is never the one that the build reports: where
/// the fields at positions `i` and `j`, `i` before `j`, are both unset and
/// without a default, the build fails, and not with the field at position
/// `j`.
pub proof fn law_later_missing_field_is_not_reported(
    op: BuildOpView,
    slots: Seq<Option<Seq<char>>>,
    defaults: Seq<Result<Seq<char>, Seq<char>>>,
    verdict: Result<(), Seq<char>>,
    i: int,
    j: int,
)
    requires
        op.initializers.len() <= usize::MAX,
        0 <= i < j < op.initializers.len(),
        slots[i] is None && op.initializers[i].fallback is Required,
        slots[j] is None && op.initializers[j].fallback is Required,
    ensures
        build_result(op, slots, defaults, verdict) is Err,
        !(build_result(op, slots, defaults, verdict)->Err_0 matches BuildErrorView::MissingField {
            index,
            field,
        } && index == j),
{
    let n = op.initializers.len() as int;
    let h = first_lacking(op.initializers, slots, defaults, i);
    lemma_first_lacking(op.initializers, slots, defaults, i);
    lemma_first_failure(op.initializers, slots, defaults, h, n);
}

/// The first position at or before `i` of a field that gets no value,
/// where the field at position `i` gets none.
pub open spec fn first_lacking(
    inits: Seq<InitializerView>,
    slots: Seq<Option<Seq<char>>>,
    defaults: Seq<Result<Seq<char>, Seq<char>>>,
    i: int,
) -> int
    decreases i,
{
    if i <= 0 {
        0
    } else {
        let h = first_lacking(inits, slots, defaults, i - 1);
        if lacks(inits, slots, defaults, h) {
            h
        } else {
            i
        }
    }
}

/// [`first_lacking`] finds the first field that gets no value.
pub proof fn lemma_first_lacking(
    inits: Seq<InitializerView>,
    slots: Seq<Option<Seq<char>>>,
    defaults: Seq<Result<Seq<char>, Seq<char>>>,
    i: int,
)
    requires
        0 <= i,
        lacks(inits, slots, defaults, i),
    ensures
        0 <= first_lacking(inits, slots, defaults, i) <= i,
        lacks(inits, slots, defaults, first_lacking(inits, slots, defaults, i)),
        forall|k: int|
            0 <= k < first_lacking(inits, slots, defaults, i) ==> !lacks(inits, slots, defaults, k),
{
    lemma_first_lacking_upto(inits, slots, defaults, i);
}

/// Below [`first_lacking`] every field gets a value, and where it stops
/// before `i` it stops at a field that gets none.
proof fn lemma_first_lacking_upto(
    inits: Seq<InitializerView>,
    slots: Seq<Option<Seq<char>>>,
    defaults: Seq<Result<Seq<char>, Seq<char>>>,
    i: int,
)
    requires
        0 <= i,
    ensures
        0 <= first_lacking(inits, slots, defaults, i) <= i,
        first_lacking(inits, slots, defaults, i) < i ==> lacks(
            inits,
            slots,
            defaults,
            first_lacking(inits, slots, defaults, i),
        ),
        forall|k: int|
            0 <= k < first_lacking(inits, slots, defaults, i) ==> !lacks(inits, slots, defaults, k),
    decreases i,
{
    if i > 0 {
        lemma_first_lacking_upto(inits, slots, defaults, i - 1);
    }
}

/// Round trip: after a run of setter calls whose last values for the
/// fields are `values`, a build that the validator lets pass assembles
/// the record of exactly these values.
pub proof fn law_round_trip(
    op: BuildOpView,
    calls: Seq<SetterCall>,
    values: Seq<Seq<char>>,
    defaults: Seq<Result<Seq<char>, Seq<char>>>,
    verdict: Result<(), Seq<char>>,
)
    requires
        values.len() == op.initializers.len(),
        calls_fit(calls, op.initializers.len() as int),
        forall|k: int| 0 <= k < values.len() ==> last_write(calls, k) == Some(values[k]),
        op.validator is None || verdict is Ok,
    ensures
        build_result(op, after_calls(unset(op.initializers.len()), calls), defaults, verdict)
            == Ok::<RecordView, BuildErrorView>(RecordView { name: op.target, values }),
{
    let n = op.initializers.len() as int;
    let slots = after_calls(unset(n as nat), calls);
    lemma_after_calls(unset(n as nat), calls);
    assert forall|k: int| 0 <= k < n implies !lacks(op.initializers, slots, defaults, k) by {
        assert(slots[k] == Some(values[k]));
    }
    lemma_all_values(op.initializers, slots, defaults, n);
    let got = values_upto(op.initializers, slots, defaults, n)->Ok_0;
    assert forall|k: int| 0 <= k < n implies got[k] == values[k] by {
        assert(got[k] == obtained_value(slots, defaults, k));
        assert(slots[k] == Some(values[k]));
    }
    assert(got =~= values);
}

/// The last write wins: a setter called with `v` and then with `w`
/// leaves the builder as one call with `w` does, so that a build gives the
/// same after both.
pub proof fn law_last_write_wins(
    setter: SetterOpView,
    slots: Seq<Option<Seq<char>>>,
    v: Seq<char>,
    w: Seq<char>,
    build: BuildOpView,
    defaults: Seq<Result<Seq<char>, Seq<char>>>,
    verdict: Result<(), Seq<char>>,
)
    requires
        setter.field < slots.len(),
    ensures
        setter_effect(setter, setter_effect(setter, slots, Ok(v)).handed_back->Ok_0, Ok(w)).handed_back
            == setter_effect(setter, slots, Ok(w)).handed_back,
        build_result(
            build,
            setter_effect(
                setter,
                setter_effect(setter, slots, Ok(v)).handed_back->Ok_0,
                Ok(w),
            ).handed_back->Ok_0,
            defaults,
            verdict,
        ) == build_result(
            build,
            setter_effect(setter, slots, Ok(w)).handed_back->Ok_0,
            defaults,
            verdict,
        ),
{
    assert(stored(setter, stored(setter, slots, v), w) =~= stored(setter, slots, w));
}

/// A setter that takes any value that converts into the field's type
/// stores what a setter for the field's type itself stores when it is
/// given the converted value: the two setters of a field that differ only
/// in this leave the same behind.
pub proof fn law_converting_setter_stores_converted_value(
    index: usize,
    f: FieldSchemaView,
    c: EffectiveFieldConfigView,
    slots: Seq<Option<Seq<char>>>,
    converted: Seq<char>,
)
    ensures
        plain_setter_of(index, f, EffectiveFieldConfigView { setter_into: true, ..c }).parameter
            == Parameter::ConvertsInto,
        plain_setter_of(index, f, EffectiveFieldConfigView { setter_into: false, ..c }).parameter
            == Parameter::Exact,
        setter_effect(
            plain_setter_of(index, f, EffectiveFieldConfigView { setter_into: true, ..c }),
            slots,
            Ok(converted),
        ) == setter_effect(
            plain_setter_of(index, f, EffectiveFieldConfigView { setter_into: false, ..c }),
            slots,
            Ok(converted),
        ),
{
}

/// A field without a setter and with a default takes the default: no
/// setter is synthesized for it, and a build in which every field gets a
/// value and which the validator lets pass succeeds with the outcome of
/// the default as the field's value.
pub proof fn law_skipped_field_takes_default(
    index: usize,
    f: FieldSchemaView,
    c: EffectiveFieldConfigView,
    op: BuildOpView,
    slots: Seq<Option<Seq<char>>>,
    defaults: Seq<Result<Seq<char>, Seq<char>>>,
    verdict: Result<(), Seq<char>>,
)
    requires
        !c.setter_enabled,
        slots.len() == op.initializers.len(),
        defaults.len() == op.initializers.len(),
        index < op.initializers.len(),
        op.initializers[index as int].fallback == c.default,
        !(c.default is Required),
        slots[index as int] is None,
        defaults[index as int] is Ok,
        forall|k: int|
            0 <= k < op.initializers.len() ==> !lacks(op.initializers, slots, defaults, k),
        op.validator is None || verdict is Ok,
    ensures
        setters_of(index, f, c).len() == 0,
        build_result(op, slots, defaults, verdict) is Ok,
        (build_result(op, slots, defaults, verdict)->Ok_0).values[index as int]
            == defaults[index as int]->Ok_0,
{
    lemma_all_values(op.initializers, slots, defaults, op.initializers.len() as int);
    let got = values_upto(op.initializers, slots, defaults, op.initializers.len() as int)->Ok_0;
    assert(got[index as int] == obtained_value(slots, defaults, index as int));
}

/// A validator that fails keeps the record from being assembled: the
/// build fails whatever the slots hold, and where every field gets a value
/// it fails with the validator's message as it is.
pub proof fn law_failing_validator_blocks_assembly(
    op: BuildOpView,
    slots: Seq<Option<Seq<char>>>,
    defaults: Seq<Result<Seq<char>, Seq<char>>>,
    message: Seq<char>,
)
    requires
        op.validator is Some,
    ensures
        build_result(op, slots, defaults, Err(message)) is Err,
        (forall|k: int|
            0 <= k < op.initializers.len() ==> !lacks(op.initializers, slots, defaults, k))
            ==> build_result(op, slots, defaults, Err(message)) == Err::<
            RecordView,
            BuildErrorView,
        >(BuildErrorView::Validation { message }),
{
    if forall|k: int|
        0 <= k < op.initializers.len() ==> !lacks(op.initializers, slots, defaults, k) {
        lemma_all_values(op.initializers, slots, defaults, op.initializers.len() as int);
    }
}

/// Under the owned pattern the build operation consumes the builder.
pub proof fn law_owned_build_consumes(
    target: Seq<char>,
    c: EffectiveBuildConfigView,
    initializers: Seq<InitializerView>,
    slots: Seq<Option<Seq<char>>>,
    defaults: Seq<Result<Seq<char>, Seq<char>>>,
    verdict: Result<(), Seq<char>>,
)
    requires
        c.enabled,
        c.pattern == Pattern::Owned,
    ensures
        build_op_of(target, c, initializers)->Some_0.receiver == Receiver::Consumed,
        build_effect(build_op_of(target, c, initializers)->Some_0, slots, defaults, verdict).builder
            is None,
{
}

/// Under the mutable and the immutable pattern the build operation
/// leaves the builder as it was, so that a second build gives what the
/// first one gave.
pub proof fn law_borrowing_build_repeats(
    target: Seq<char>,
    c: EffectiveBuildConfigView,
    initializers: Seq<InitializerView>,
    slots: Seq<Option<Seq<char>>>,
    defaults: Seq<Result<Seq<char>, Seq<char>>>,
    verdict: Result<(), Seq<char>>,
)
    requires
        c.enabled,
        c.pattern != Pattern::Owned,
    ensures
        ({
            let op = build_op_of(target, c, initializers)->Some_0;
            let first = build_effect(op, slots, defaults, verdict);
            &&& first.builder == Some(slots)
            &&& build_effect(op, first.builder->Some_0, defaults, verdict).result == first.result
        }),
{
}

/// A fallible setter whose conversion fails changes no slot: the builder
/// on which it was called, where it is still there, is as it was. Under
/// the owned pattern it is not there: the builder is lost with the
/// failure.
pub proof fn law_failed_setter_keeps_state(
    op: SetterOpView,
    slots: Seq<Option<Seq<char>>>,
    failure: Seq<char>,
)
    ensures
        setter_effect(op, slots, Err(failure)).handed_back == Err::<
            Seq<Option<Seq<char>>>,
            Seq<char>,
        >(failure),
        op.receiver != Receiver::Consumed ==> setter_effect(op, slots, Err(failure)).receiver
            == Some(slots),
        op.receiver == Receiver::Consumed ==> setter_effect(op, slots, Err(failure)).receiver
            is None,
{
}

/// The hazard of a fallible setter under the owned pattern: the setter is
/// synthesized, it consumes the builder, and where its conversion fails
/// nothing of the builder is left.
pub proof fn law_owned_fallible_setter_loses_builder(
    index: usize,
    f: FieldSchemaView,
    c: EffectiveFieldConfigView,
    slots: Seq<Option<Seq<char>>>,
    failure: Seq<char>,
)
    requires
        try_setter_hazard(c),
    ensures
        setters_of(index, f, c).contains(fallible_setter_of(index, f, c)),
        fallible_setter_of(index, f, c).receiver == Receiver::Consumed,
        setter_effect(fallible_setter_of(index, f, c), slots, Err(failure)).handed_back is Err,
        setter_effect(fallible_setter_of(index, f, c), slots, Err(failure)).receiver is None,
{
    assert(setters_of(index, f, c)[1] == fallible_setter_of(index, f, c));
}

/// What a field says shadows what the record says, on every axis: the
/// effective configuration of a field does not depend on the record's word
/// on an axis on which the field has a word of its own.
pub proof fn law_field_shadows_record(record: SettingsView, field: SettingsView, name: Seq<char>)
    ensures
        field.pattern matches Some(p) ==> effective_field(record, field, name).pattern == p,
        field.setter_skip matches Some(b) ==> effective_field(record, field, name).setter_enabled
            == !b,
        field.setter_into matches Some(b) ==> effective_field(record, field, name).setter_into
            == b,
        field.visibility matches Some(v) ==> effective_field(record, field, name).visibility == v,
        field.default matches Some(d) ==> effective_field(record, field, name).default == d,
        field.setter_prefix matches Some(p) ==> effective_field(record, field, name)
            == effective_field(SettingsView { setter_prefix: None, ..record }, field, name),
{
}

/// The record stands in only where the field is silent: on an axis that
/// the field leaves open, the effective configuration takes the record's
/// word.
pub proof fn law_record_stands_in(record: SettingsView, field: SettingsView, name: Seq<char>)
    ensures
        field.pattern is None && record.pattern is Some ==> effective_field(
            record,
            field,
            name,
        ).pattern == record.pattern->Some_0,
        field.setter_skip is None && record.setter_skip is Some ==> effective_field(
            record,
            field,
            name,
        ).setter_enabled == !record.setter_skip->Some_0,
        field.setter_into is None && record.setter_into is Some ==> effective_field(
            record,
            field,
            name,
        ).setter_into == record.setter_into->Some_0,
        field.visibility is None && record.visibility is Some ==> effective_field(
            record,
            field,
            name,
        ).visibility == record.visibility->Some_0,
        field.default is None && record.default is Some ==> effective_field(
            record,
            field,
            name,
        ).default == record.default->Some_0,
{
}

/// The name that a field gives its setter wins over every prefix.
pub proof fn law_setter_name_wins(
    record: SettingsView,
    field: SettingsView,
    name: Seq<char>,
    given: Seq<char>,
)
    requires
        field.setter_name == Some(given),
    ensures
        effective_field(record, field, name).setter_name == given,
{
}

/// The builder follows the record: it is named after the record, it has
/// one storage field for each field of the record, in their order, and its
/// build operation, where it has one, builds the record with one
/// initializer for each field, which takes the field's default and copies
/// the stored value exactly where the operation leaves the builder behind.
pub proof fn law_artifact_follows_schema(schema: RecordSchemaView)
    requires
        synthesis_of(schema) is Ok,
        schema.fields.len() <= usize::MAX,
    ensures
        ({
            let a = synthesis_of(schema)->Ok_0;
            let record = record_settings(schema);
            &&& a.builder_name == builder_name_of(schema.name)
            &&& a.derives == record.derives
            &&& a.storage.len() == schema.fields.len()
            &&& forall|i: int|
                0 <= i < schema.fields.len() ==> #[trigger] a.storage[i] == storage_of(
                    schema.fields[i],
                )
            &&& a.build matches Some(op) ==> {
                &&& op.target == schema.name
                &&& op.initializers.len() == schema.fields.len()
                &&& forall|i: int|
                    0 <= i < schema.fields.len() ==> {
                        &&& (#[trigger] op.initializers[i]).field == schema.fields[i].name
                        &&& op.initializers[i].fallback == config_of(
                            record,
                            schema.fields[i],
                        ).default
                        &&& op.initializers[i].copies == (op.receiver != Receiver::Consumed)
                    }
            }
        }),
{
    let record = record_settings(schema);
    let parts = fields_outcome(record, schema.fields)->Ok_0;
    lemma_fields_outcome_each(record, schema.fields);
    let a = synthesis_of(schema)->Ok_0;
    assert forall|i: int| 0 <= i < schema.fields.len() implies #[trigger] a.storage[i]
        == storage_of(schema.fields[i]) by {
        assert(field_outcome(record, i as usize, schema.fields[i]) is Ok);
    }
    if a.build is Some {
        let op = a.build->Some_0;
        assert forall|i: int| 0 <= i < schema.fields.len() implies {
            &&& (#[trigger] op.initializers[i]).field == schema.fields[i].name
            &&& op.initializers[i].fallback == config_of(record, schema.fields[i]).default
            &&& op.initializers[i].copies == (op.receiver != Receiver::Consumed)
        } by {
            assert(field_outcome(record, i as usize, schema.fields[i]) is Ok);
        }
    }
}

/// The setters of the builder are the setters of the fields: each setter
/// of the builder is a setter that is synthesized for the field into which
/// it stores, and every setter that is synthesized for a field is a setter
/// of the builder.
pub proof fn law_setters_follow_fields(schema: RecordSchemaView)
    requires
        synthesis_of(schema) is Ok,
        schema.fields.len() <= usize::MAX,
    ensures
        ({
            let a = synthesis_of(schema)->Ok_0;
            let record = record_settings(schema);
            &&& forall|k: int|
                0 <= k < a.setters.len() ==> {
                    &&& (#[trigger] a.setters[k]).field < schema.fields.len()
                    &&& setters_of(
                        a.setters[k].field,
                        schema.fields[a.setters[k].field as int],
                        config_of(record, schema.fields[a.setters[k].field as int]),
                    ).contains(a.setters[k])
                }
            &&& forall|i: int, j: int|
                0 <= i < schema.fields.len() && 0 <= j < setters_of(
                    i as usize,
                    schema.fields[i],
                    config_of(record, schema.fields[i]),
                ).len() ==> a.setters.contains(
                    #[trigger] setters_of(
                        i as usize,
                        schema.fields[i],
                        config_of(record, schema.fields[i]),
                    )[j],
                )
        }),
{
    let record = record_settings(schema);
    let parts = fields_outcome(record, schema.fields)->Ok_0;
    lemma_fields_outcome_setters(record, schema.fields);
    lemma_fields_outcome_consistent(record, schema.fields);
    lemma_setters_of_their_fields(parts);
    lemma_all_setters_members(parts);
    let a = synthesis_of(schema)->Ok_0;
    assert(a.setters == all_setters(parts));
    assert forall|k: int| 0 <= k < a.setters.len() implies {
        &&& (#[trigger] a.setters[k]).field < schema.fields.len()
        &&& setters_of(
            a.setters[k].field,
            schema.fields[a.setters[k].field as int],
            config_of(record, schema.fields[a.setters[k].field as int]),
        ).contains(a.setters[k])
    } by {
        let i = a.setters[k].field as int;
        assert(parts[i].setters.contains(a.setters[k]));
    }
    assert forall|i: int, j: int|
        0 <= i < schema.fields.len() && 0 <= j < setters_of(
            i as usize,
            schema.fields[i],
            config_of(record, schema.fields[i]),
        ).len() implies a.setters.contains(
        #[trigger] setters_of(
            i as usize,
            schema.fields[i],
            config_of(record, schema.fields[i]),
        )[j],
    ) by {
        assert(parts[i].setters[j] == setters_of(
            i as usize,
            schema.fields[i],
            config_of(record, schema.fields[i]),
        )[j]);
    }
}

/// A builder is synthesized exactly where nothing is refused: where the
/// directive text of the record is accepted, and for every field its
/// directive text is accepted and the field has a setter or a default.
pub proof fn law_synthesis_succeeds_where_nothing_is_refused(schema: RecordSchemaView)
    requires
        schema.fields.len() <= usize::MAX,
    ensures
        synthesis_of(schema) is Ok <==> {
            &&& directives_of(schema.directives, Scope::Record) is Ok
            &&& forall|i: int|
                0 <= i < schema.fields.len() ==> {
                    &&& #[trigger] directives_of(schema.fields[i].directives, Scope::Field) is Ok
                    &&& obtainable(
                        effective_field(
                            record_settings(schema),
                            settings_of(
                                directives_of(schema.fields[i].directives, Scope::Field)->Ok_0,
                            ),
                            schema.fields[i].name,
                        ),
                    )
                }
        },
{
    let record = record_settings(schema);
    if synthesis_of(schema) is Ok {
        lemma_fields_outcome_each(record, schema.fields);
        assert forall|i: int| 0 <= i < schema.fields.len() implies {
            &&& #[trigger] directives_of(schema.fields[i].directives, Scope::Field) is Ok
            &&& obtainable(
                effective_field(
                    record,
                    settings_of(directives_of(schema.fields[i].directives, Scope::Field)->Ok_0),
                    schema.fields[i].name,
                ),
            )
        } by {
            assert(field_outcome(record, i as usize, schema.fields[i]) is Ok);
        }
    }
    if directives_of(schema.directives, Scope::Record) is Ok && (forall|i: int|
        0 <= i < schema.fields.len() ==> {
            &&& #[trigger] directives_of(schema.fields[i].directives, Scope::Field) is Ok
            &&& obtainable(
                effective_field(
                    record,
                    settings_of(directives_of(schema.fields[i].directives, Scope::Field)->Ok_0),
                    schema.fields[i].name,
                ),
            )
        }) {
        assert forall|i: int| 0 <= i < schema.fields.len() implies #[trigger] field_outcome(
            record,
            i as usize,
            schema.fields[i],
        ) is Ok by {
            assert(directives_of(schema.fields[i].directives, Scope::Field) is Ok);
        }
        lemma_fields_outcome_accepts(record, schema.fields);
    }
}

/// The first refused field is the one that is reported: where the
/// synthesis ends with the refusal of a field, that field is refused by
/// itself, with that very error, and every field before it is accepted.
pub proof fn law_first_refused_field_is_reported(schema: RecordSchemaView)
    requires
        schema.fields.len() <= usize::MAX,
        synthesis_of(schema) matches Err(SynthesisErrorView::Configuration { error, field })
            && field is Some,
    ensures
        ({
            let record = record_settings(schema);
            let i = synthesis_of(schema)->Err_0->Configuration_field->Some_0 as int;
            &&& 0 <= i < schema.fields.len()
            &&& field_outcome(record, i as usize, schema.fields[i]) == Err::<
                FieldPartsView,
                ConfigurationErrorView,
            >(synthesis_of(schema)->Err_0->Configuration_error)
            &&& forall|k: int|
                0 <= k < i ==> #[trigger] field_outcome(record, k as usize, schema.fields[k]) is Ok
        }),
{
    let record = record_settings(schema);
    lemma_fields_outcome_refusal(record, schema.fields);
}

/// In a record whose fields have distinct names, the name in a missing
/// field error stands for one field only: no two initializers of the
/// build operation name the same field.
pub proof fn law_missing_field_name_identifies_field(schema: RecordSchemaView, i: int, j: int)
    requires
        synthesis_of(schema) is Ok,
        schema.fields.len() <= usize::MAX,
        schema.distinct_names(),
        (synthesis_of(schema)->Ok_0).build is Some,
        0 <= i < schema.fields.len(),
        0 <= j < schema.fields.len(),
        ((synthesis_of(schema)->Ok_0).build->Some_0).initializers[i].field == ((synthesis_of(
            schema,
        )->Ok_0).build->Some_0).initializers[j].field,
    ensures
        i == j,
{
    law_artifact_follows_schema(schema);
    let op = (synthesis_of(schema)->Ok_0).build->Some_0;
    assert(op.initializers[i].field == schema.fields[i].name);
    assert(op.initializers[j].field == schema.fields[j].name);
}

/// Every name in a directive is an identifier.
pub open spec fn names_identifier(d: DirectiveView) -> bool {
    match d {
        DirectiveView::SetterName(t) => is_identifier(t),
        DirectiveView::SetterPrefix(t) => is_identifier(t),
        DirectiveView::BuildFnName(t) => is_identifier(t),
        DirectiveView::Derive(t) => is_identifier(t),
        _ => true,
    }
}

/// The directives that are read from well keyed entries name
/// identifiers only.
pub proof fn lemma_readings_name_identifiers(es: Seq<EntryView>, scope: Scope)
    requires
        all_well_keyed(es),
    ensures
        readings(es, scope) matches Ok(ds) ==> ds.len() == es.len() && forall|k: int|
            0 <= k < ds.len() ==> names_identifier(#[trigger] ds[k]),
    decreases es.len(),
{
    if es.len() > 0 {
        let front = es.drop_last();
        assert forall|k: int| 0 <= k < front.len() implies well_keyed(#[trigger] front[k]) by {
            assert(front[k] == es[k]);
        }
        lemma_readings_name_identifiers(front, scope);
        assert(well_keyed(es[es.len() - 1]));
        if readings(es, scope) is Ok {
            let ds = readings(es, scope)->Ok_0;
            let before = readings(front, scope)->Ok_0;
            assert forall|k: int| 0 <= k < ds.len() implies names_identifier(#[trigger] ds[k]) by {
                if k < before.len() {
                    assert(ds[k] == before[k]);
                }
            }
        }
    }
}

/// Every setter name, setter prefix, build name and derive name that is
/// read from a directive text is an identifier.
pub proof fn law_directive_names_are_identifiers(s: Seq<char>, scope: Scope)
    ensures
        directives_of(s, scope) matches Ok(ds) ==> forall|k: int|
            0 <= k < ds.len() ==> names_identifier(#[trigger] ds[k]),
{
    law_entries_are_well_keyed(s);
    if entries_of(s) is Ok {
        lemma_readings_name_identifiers(entries_of(s)->Ok_0, scope);
    }
}

} // verus!
