//! What a synthesized builder does when it is used: the meaning of the
//! setter operations and of the build operation, on the state of a builder.
//!
//! The state of a builder is one slot for each field. A value is carried
//! as a text. What only the user's code can compute is handed in: the value
//! that a setter's argument converts into, or the failure of that
//! conversion; for each field the outcome of its default; and the verdict
//! of the validator.

use vstd::prelude::*;
use vstd::string::*;
use crate::build_op::{BuildOp, BuildOpView};
use crate::directive::DefaultRule;
use crate::field::{InitializerView, Parameter, SetterOp, SetterOpView};
use crate::pattern::Receiver;
use crate::text::{opt_text, views_of, views_of_empty, views_of_push};

verus! {

/// The state of a builder: one slot for each field of the record, empty
/// until a setter fills it.
#[derive(Clone, Debug, PartialEq, Eq)]
pub struct BuilderState {
    pub slots: Vec<Option<String>>,
}

impl View for BuilderState {
    type V = Seq<Option<Seq<char>>>;

    open spec fn view(&self) -> Seq<Option<Seq<char>>> {
        self.slots@.map_values(|o: Option<String>| opt_text(o))
    }
}

/// A record that a build operation assembled.
#[derive(Clone, Debug, PartialEq, Eq)]
pub struct Record {
    /// The name of the record.
    pub name: String,
    /// The values of the fields, in the order of the fields.
    pub values: Vec<String>,
}

/// Model of a [`Record`].
pub struct RecordView {
    pub name: Seq<char>,
    pub values: Seq<Seq<char>>,
}

impl View for Record {
    type V = RecordView;

    open spec fn view(&self) -> RecordView {
        RecordView { name: self.name@, values: views_of(self.values@) }
    }
}

/// Why a build operation assembled no record.
#[derive(Clone, Debug, PartialEq, Eq)]
pub enum BuildError {
    /// The field at position `index` was never set and has no default.
    MissingField { index: usize, field: String },
    /// The field at position `index` was never set and its default failed
    /// with `message`.
    DefaultFailed { index: usize, message: String },
    /// The validator refused the builder with `message`.
    Validation { message: String },
}

/// Model of a [`BuildError`].
pub enum BuildErrorView {
    MissingField { index: usize, field: Seq<char> },
    DefaultFailed { index: usize, message: Seq<char> },
    Validation { message: Seq<char> },
}

impl View for BuildError {
    type V = BuildErrorView;

    open spec fn view(&self) -> BuildErrorView {
        match self {
            BuildError::MissingField { index, field } => BuildErrorView::MissingField {
                index: *index,
                field: field@,
            },
            BuildError::DefaultFailed { index, message } => BuildErrorView::DefaultFailed {
                index: *index,
                message: message@,
            },
            BuildError::Validation { message } => BuildErrorView::Validation { message: message@ },
        }
    }
}

/// The text that reports a field that was never set and has no default.
pub open spec fn missing_message(field: Seq<char>) -> Seq<char> {
    seq!['`'] + field + "` must be initialized"@
}

/// The text of a build error: for a missing field the text that names
/// it, else the message as it came.
pub open spec fn error_text(e: BuildErrorView) -> Seq<char> {
    match e {
        BuildErrorView::MissingField { index, field } => missing_message(field),
        BuildErrorView::DefaultFailed { index, message } => message,
        BuildErrorView::Validation { message } => message,
    }
}

impl BuildError {
    /// The text of this error.
    pub fn message(&self) -> (r: String)
        ensures
            r@ == error_text(self@),
    {
        match self {
            BuildError::MissingField { index, field } => {
                proof {
                    reveal_strlit("`");
                }
                let mut out = String::from_str("`");
                out.append(field.as_str());
                out.append("` must be initialized");
                assert("`"@ =~= seq!['`']);
                out
            },
            BuildError::DefaultFailed { index, message } => message.clone(),
            BuildError::Validation { message } => message.clone(),
        }
    }
}

/// The view of the outcome of a conversion or of a default.
pub open spec fn outcome_view(r: Result<String, String>) -> Result<Seq<char>, Seq<char>> {
    match r {
        Ok(v) => Ok(v@),
        Err(m) => Err(m@),
    }
}

/// The views of the outcomes of the defaults of all fields.
pub open spec fn outcome_views(v: Seq<Result<String, String>>) -> Seq<
    Result<Seq<char>, Seq<char>>,
> {
    v.map_values(|r: Result<String, String>| outcome_view(r))
}

/// The view of the verdict of a validator.
pub open spec fn verdict_view(r: Result<(), String>) -> Result<(), Seq<char>> {
    match r {
        Ok(u) => Ok(()),
        Err(m) => Err(m@),
    }
}

/// The state in which no slot of `n` is set.
pub open spec fn unset(n: nat) -> Seq<Option<Seq<char>>> {
    Seq::new(n, |k: int| None::<Seq<char>>)
}

/// What a setter leaves behind.
#[derive(Debug, PartialEq, Eq)]
pub struct SetterOutcome {
    /// What the setter hands back: the builder that holds the new value,
    /// or the failure of the conversion.
    pub handed_back: Result<BuilderState, String>,
    /// The builder on which the setter was called, as it is after the
    /// call; `None` where the setter consumed it.
    pub receiver: Option<BuilderState>,
}

/// Model of a [`SetterOutcome`].
pub struct SetterOutcomeView {
    pub handed_back: Result<Seq<Option<Seq<char>>>, Seq<char>>,
    pub receiver: Option<Seq<Option<Seq<char>>>>,
}

impl View for SetterOutcome {
    type V = SetterOutcomeView;

    open spec fn view(&self) -> SetterOutcomeView {
        SetterOutcomeView {
            handed_back: match self.handed_back {
                Ok(s) => Ok(s@),
                Err(m) => Err(m@),
            },
            receiver: match self.receiver {
                Some(s) => Some(s@),
                None => None,
            },
        }
    }
}

/// The state after the slot of the setter's field took the value `v`.
pub open spec fn stored(op: SetterOpView, slots: Seq<Option<Seq<char>>>, v: Seq<char>) -> Seq<
    Option<Seq<char>>,
> {
    slots.update(op.field as int, Some(v))
}

/// What a setter does on the state `slots`, given what its argument
/// converts into. A value is stored in the slot of the setter's field, and
/// the builder that holds it is handed back; a failure is handed back and
/// no slot changes. The builder on which the setter was called is gone
/// where the setter consumes it, holds the new value where it is borrowed
/// exclusively, and stays as it was where it is borrowed read-only.
pub open spec fn setter_effect(
    op: SetterOpView,
    slots: Seq<Option<Seq<char>>>,
    converted: Result<Seq<char>, Seq<char>>,
) -> SetterOutcomeView {
    match converted {
        Ok(v) => SetterOutcomeView {
            handed_back: Ok(stored(op, slots, v)),
            receiver: match op.receiver {
                Receiver::Consumed => None,
                Receiver::Exclusive => Some(stored(op, slots, v)),
                Receiver::Shared => Some(slots),
            },
        },
        Err(m) => SetterOutcomeView {
            handed_back: Err(m),
            receiver: match op.receiver {
                Receiver::Consumed => None,
                _ => Some(slots),
            },
        },
    }
}

/// How the field at position `index` gets its value: from its slot where
/// it is set, else from its default, else not at all.
pub open spec fn slot_value(
    init: InitializerView,
    index: int,
    slot: Option<Seq<char>>,
    default: Result<Seq<char>, Seq<char>>,
) -> Result<Seq<char>, BuildErrorView> {
    match slot {
        Some(v) => Ok(v),
        None => if init.fallback is Required {
            Err(BuildErrorView::MissingField { index: index as usize, field: init.field })
        } else {
            match default {
                Ok(v) => Ok(v),
                Err(m) => Err(BuildErrorView::DefaultFailed { index: index as usize, message: m }),
            }
        },
    }
}

/// The values of the first `k` fields, or the failure of the first field
/// among them that gets no value.
pub open spec fn values_upto(
    inits: Seq<InitializerView>,
    slots: Seq<Option<Seq<char>>>,
    defaults: Seq<Result<Seq<char>, Seq<char>>>,
    k: int,
) -> Result<Seq<Seq<char>>, BuildErrorView>
    decreases k,
{
    if k <= 0 {
        Ok(Seq::empty())
    } else {
        match values_upto(inits, slots, defaults, k - 1) {
            Err(e) => Err(e),
            Ok(vs) => match slot_value(inits[k - 1], k - 1, slots[k - 1], defaults[k - 1]) {
                Ok(v) => Ok(vs.push(v)),
                Err(e) => Err(e),
            },
        }
    }
}

/// What a build operation hands back: the failure of the first field that
/// gets no value; else the failure of the validator, where the operation
/// has one; else the record.
pub open spec fn build_result(
    op: BuildOpView,
    slots: Seq<Option<Seq<char>>>,
    defaults: Seq<Result<Seq<char>, Seq<char>>>,
    verdict: Result<(), Seq<char>>,
) -> Result<RecordView, BuildErrorView> {
    match values_upto(op.initializers, slots, defaults, op.initializers.len() as int) {
        Err(e) => Err(e),
        Ok(vs) => if op.validator is Some && verdict is Err {
            Err(BuildErrorView::Validation { message: verdict->Err_0 })
        } else {
            Ok(RecordView { name: op.target, values: vs })
        },
    }
}

/// What a build operation leaves behind.
#[derive(Debug, PartialEq, Eq)]
pub struct BuildOutcome {
    /// The record, or why there is none.
    pub result: Result<Record, BuildError>,
    /// The builder after the call; `None` where the operation consumed it.
    pub builder: Option<BuilderState>,
}

/// Model of a [`BuildOutcome`].
pub struct BuildOutcomeView {
    pub result: Result<RecordView, BuildErrorView>,
    pub builder: Option<Seq<Option<Seq<char>>>>,
}

impl View for BuildOutcome {
    type V = BuildOutcomeView;

    open spec fn view(&self) -> BuildOutcomeView {
        BuildOutcomeView {
            result: match self.result {
                Ok(r) => Ok(r@),
                Err(e) => Err(e@),
            },
            builder: match self.builder {
                Some(s) => Some(s@),
                None => None,
            },
        }
    }
}

/// What a build operation does on the state `slots`: its result, and the
/// builder after the call, which is gone where the operation consumes it
/// and else is as it was.
pub open spec fn build_effect(
    op: BuildOpView,
    slots: Seq<Option<Seq<char>>>,
    defaults: Seq<Result<Seq<char>, Seq<char>>>,
    verdict: Result<(), Seq<char>>,
) -> BuildOutcomeView {
    BuildOutcomeView {
        result: build_result(op, slots, defaults, verdict),
        builder: match op.receiver {
            Receiver::Consumed => None,
            _ => Some(slots),
        },
    }
}

impl BuilderState {
    /// The state of a fresh builder with `n` fields: no slot is set.
    pub fn new(n: usize) -> (r: BuilderState)
        ensures
            r@ == unset(n as nat),
    {
        let mut slots: Vec<Option<String>> = Vec::new();
        let mut k: usize = 0;
        while k < n
            invariant
                k <= n,
                slots@.len() == k,
                forall|j: int| 0 <= j < k ==> slots@[j] is None,
            decreases n - k,
        {
            slots.push(None);
            k = k + 1;
        }
        let r = BuilderState { slots };
        assert(r@ =~= unset(n as nat));
        r
    }

    /// An owned copy of this state.
    pub fn copy(&self) -> (r: BuilderState)
        ensures
            r@ == self@,
    {
        let mut slots: Vec<Option<String>> = Vec::new();
        let mut k: usize = 0;
        while k < self.slots.len()
            invariant
                k <= self.slots.len(),
                slots@.len() == k,
                forall|j: int| 0 <= j < k ==> opt_text(slots@[j]) == opt_text(self.slots@[j]),
            decreases self.slots.len() - k,
        {
            let slot = match &self.slots[k] {
                Some(v) => Some(v.clone()),
                None => None,
            };
            slots.push(slot);
            k = k + 1;
        }
        let r = BuilderState { slots };
        assert(r@ =~= self@);
        r
    }
}

/// Runs a setter on the state of a builder.
///
/// `converted` is what the setter's argument converts into: the value
/// itself for a setter that takes the field's type, and a failure only for
/// a fallible setter.
pub fn run_setter(op: &SetterOp, state: BuilderState, converted: Result<String, String>) -> (r:
    SetterOutcome)
    requires
        op.field < state@.len(),
        converted is Err ==> op.parameter == Parameter::FallibleConvertsInto,
    ensures
        r@ == setter_effect(op@, state@, outcome_view(converted)),
{
    match converted {
        Ok(v) => {
            let mut next = state.copy();
            next.slots.set(op.field, Some(v));
            assert(next@ =~= stored(op@, state@, v@));
            let receiver = match op.receiver {
                Receiver::Consumed => None,
                Receiver::Exclusive => Some(next.copy()),
                Receiver::Shared => Some(state),
            };
            SetterOutcome { handed_back: Ok(next), receiver }
        },
        Err(m) => {
            let receiver = match op.receiver {
                Receiver::Consumed => None,
                _ => Some(state),
            };
            SetterOutcome { handed_back: Err(m), receiver }
        },
    }
}

/// Runs a build operation on the state of a builder.
///
/// `defaults` holds for each field the outcome of its default, which is
/// looked at only where the field was never set and has a default;
/// `verdict` is what the validator says of the builder, which is looked at
/// only where the operation has a validator and every field got a value.
pub fn run_build(
    op: &BuildOp,
    state: BuilderState,
    defaults: &Vec<Result<String, String>>,
    verdict: &Result<(), String>,
) -> (r: BuildOutcome)
    requires
        state@.len() == op@.initializers.len(),
        defaults@.len() == op@.initializers.len(),
    ensures
        r@ == build_effect(op@, state@, outcome_views(defaults@), verdict_view(*verdict)),
{
    let n = op.initializers.len();
    let ghost inits = op@.initializers;
    let ghost given = outcome_views(defaults@);
    let mut values: Vec<String> = Vec::new();
    let mut failure: Option<BuildError> = None;
    let mut k: usize = 0;
    proof {
        views_of_empty::<String>();
    }
    while k < n
        invariant_except_break
            failure is None,
            values_upto(inits, state@, given, k as int) == Ok::<Seq<Seq<char>>, BuildErrorView>(
                views_of(values@),
            ),
        invariant
            n == op.initializers@.len(),
            inits == op@.initializers,
            given == outcome_views(defaults@),
            state@.len() == n,
            defaults@.len() == n,
            k <= n,
        ensures
            match failure {
                None => values_upto(inits, state@, given, n as int) == Ok::<
                    Seq<Seq<char>>,
                    BuildErrorView,
                >(views_of(values@)),
                Some(e) => values_upto(inits, state@, given, n as int) == Err::<
                    Seq<Seq<char>>,
                    BuildErrorView,
                >(e@),
            },
        decreases n - k,
    {
        let init = &op.initializers[k];
        assert(inits[k as int] == init@);
        assert(state@[k as int] == opt_text(state.slots@[k as int]));
        assert(given[k as int] == outcome_view(defaults@[k as int]));
        let required = match &init.fallback {
            DefaultRule::Required => true,
            _ => false,
        };
        let got: Result<String, BuildError> = match &state.slots[k] {
            Some(v) => Ok(v.clone()),
            None => {
                if required {
                    Err(BuildError::MissingField { index: k, field: init.field.clone() })
                } else {
                    match &defaults[k] {
                        Ok(v) => Ok(v.clone()),
                        Err(m) => Err(BuildError::DefaultFailed { index: k, message: m.clone() }),
                    }
                }
            },
        };
        match got {
            Ok(v) => {
                proof {
                    views_of_push(values@, v);
                }
                values.push(v);
                k = k + 1;
            },
            Err(e) => {
                proof {
                    lemma_failure_stays(inits, state@, given, k + 1, n as int);
                }
                failure = Some(e);
                break;
            },
        }
    }
    let result = match failure {
        Some(e) => Err(e),
        None => {
            let refused = match (&op.validator, verdict) {
                (Some(_), Err(m)) => Some(m.clone()),
                _ => None,
            };
            match refused {
                Some(message) => Err(BuildError::Validation { message }),
                None => Ok(Record { name: op.target.clone(), values }),
            }
        },
    };
    let builder = match op.receiver {
        Receiver::Consumed => None,
        _ => Some(state),
    };
    BuildOutcome { result, builder }
}

/// Once the first `k` fields hold a field that gets no value, every
/// longer front part of the fields fails in the same way.
pub proof fn lemma_failure_stays(
    inits: Seq<InitializerView>,
    slots: Seq<Option<Seq<char>>>,
    defaults: Seq<Result<Seq<char>, Seq<char>>>,
    k: int,
    n: int,
)
    requires
        0 <= k <= n,
        values_upto(inits, slots, defaults, k) is Err,
    ensures
        values_upto(inits, slots, defaults, n) == values_upto(inits, slots, defaults, k),
    decreases n - k,
{
    if k < n {
        lemma_failure_stays(inits, slots, defaults, k, n - 1);
    }
}

} // verus!
