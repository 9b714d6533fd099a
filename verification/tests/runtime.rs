use derive_builder::build_op::BuildOp;
use derive_builder::directive::{DefaultRule, Pattern};
use derive_builder::field::{Parameter, SetterOp};
use derive_builder::pattern::{Handback, Receiver};
use derive_builder::runtime::{
    run_build, run_setter, BuildError, BuildOutcome, BuilderState, Record, SetterOutcome,
};
use derive_builder::schema::{FieldSchema, RecordSchema};
use derive_builder::synthesis::builder_for_struct;
use derive_builder::artifact::SynthesizedArtifact;

fn artifact(record_directives: &str, fields: &[(&str, &str)]) -> SynthesizedArtifact {
    let fields = fields
        .iter()
        .map(|(name, directives)| FieldSchema {
            name: name.to_string(),
            value_type: "u32".to_string(),
            directives: directives.to_string(),
            annotations: vec![],
        })
        .collect();
    builder_for_struct(&RecordSchema {
        name: "Lorem".to_string(),
        fields,
        directives: record_directives.to_string(),
    })
    .unwrap()
}

fn setter_of(a: &SynthesizedArtifact, name: &str) -> SetterOp {
    a.setters.iter().find(|s| s.name == name).unwrap().clone()
}

fn set(a: &SynthesizedArtifact, state: BuilderState, name: &str, value: &str) -> BuilderState {
    run_setter(&setter_of(a, name), state, Ok(value.to_string())).handed_back.unwrap()
}

fn no_defaults(n: usize) -> Vec<Result<String, String>> {
    vec![Err("no default".to_string()); n]
}

fn state(slots: &[Option<&str>]) -> BuilderState {
    BuilderState { slots: slots.iter().map(|s| s.map(|v| v.to_string())).collect() }
}

fn lorem(values: &[&str]) -> Record {
    Record { name: "Lorem".to_string(), values: values.iter().map(|v| v.to_string()).collect() }
}

fn missing(index: usize, field: &str) -> BuildError {
    BuildError::MissingField { index, field: field.to_string() }
}

#[test]
fn a_fresh_builder_has_no_slot_set() {
    assert_eq!(BuilderState::new(0), state(&[]));
    assert_eq!(BuilderState::new(3), state(&[None, None, None]));
    assert_eq!(BuilderState::new(3).copy(), state(&[None, None, None]));
    assert_eq!(state(&[Some("1"), None]).copy(), state(&[Some("1"), None]));
}

#[test]
fn the_one_unset_field_is_reported() {
    let a = artifact("", &[("a", ""), ("b", ""), ("c", "")]);
    let build = a.build.clone().unwrap();
    for (skipped, name) in ["a", "b", "c"].iter().enumerate() {
        for value in ["0", "seven"] {
            let mut s = BuilderState::new(3);
            for other in ["c", "a", "b"] {
                if other != *name {
                    s = set(&a, s, other, value);
                }
            }
            let out = run_build(&build, s, &no_defaults(3), &Ok(()));
            assert_eq!(out.result, Err(missing(skipped, name)));
        }
    }
}

#[test]
fn the_first_unset_field_is_reported() {
    let a = artifact("", &[("a", ""), ("b", ""), ("c", ""), ("d", "")]);
    let build = a.build.clone().unwrap();
    let out = run_build(&build, state(&[Some("1"), None, Some("3"), None]), &no_defaults(4), &Ok(()));
    assert_eq!(out.result, Err(missing(1, "b")));
    let out = run_build(&build, BuilderState::new(4), &no_defaults(4), &Ok(()));
    assert_eq!(out.result, Err(missing(0, "a")));
}

#[test]
fn the_missing_field_is_named_in_the_message() {
    assert_eq!(missing(0, "ipsum").message(), "`ipsum` must be initialized".to_string());
    assert_eq!(
        BuildError::DefaultFailed { index: 1, message: "ipsum must at least 3 chars to build dolor".to_string() }
            .message(),
        "ipsum must at least 3 chars to build dolor".to_string()
    );
    assert_eq!(BuildError::Validation { message: "Try harder".to_string() }.message(), "Try harder".to_string());
}

#[test]
fn setting_every_field_builds_the_record_of_the_values() {
    let a = artifact("", &[("a", ""), ("b", "setter(into)"), ("c", "setter(prefix = \"with\")")]);
    let build = a.build.clone().unwrap();
    let mut s = BuilderState::new(3);
    s = set(&a, s, "with_c", "3");
    s = set(&a, s, "a", "1");
    s = set(&a, s, "b", "2");
    let out = run_build(&build, s, &no_defaults(3), &Ok(()));
    assert_eq!(out.result, Ok(lorem(&["1", "2", "3"])));
}

#[test]
fn the_last_write_wins() {
    let a = artifact("", &[("a", ""), ("b", "")]);
    let build = a.build.clone().unwrap();
    let twice = set(&a, set(&a, set(&a, BuilderState::new(2), "b", "x"), "a", "v"), "a", "w");
    let once = set(&a, set(&a, BuilderState::new(2), "b", "x"), "a", "w");
    assert_eq!(twice, once);
    assert_eq!(twice, state(&[Some("w"), Some("x")]));
    assert_eq!(
        run_build(&build, twice, &no_defaults(2), &Ok(())).result,
        run_build(&build, once, &no_defaults(2), &Ok(())).result
    );
}

#[test]
fn a_converting_setter_stores_the_converted_value() {
    let exact = artifact("", &[("ipsum", "")]);
    let into = artifact("", &[("ipsum", "setter(into)")]);
    assert_eq!(setter_of(&into, "ipsum").parameter, Parameter::ConvertsInto);
    assert_eq!(
        run_setter(&setter_of(&into, "ipsum"), BuilderState::new(1), Ok("foo".to_string())),
        run_setter(&setter_of(&exact, "ipsum"), BuilderState::new(1), Ok("foo".to_string()))
    );
}

#[test]
fn a_skipped_field_takes_its_default() {
    let a = artifact("", &[("a", ""), ("b", "setter(skip), default = \"42\"")]);
    assert!(a.setters.iter().all(|s| s.field != 1));
    let build = a.build.clone().unwrap();
    let s = set(&a, BuilderState::new(2), "a", "1");
    let defaults = vec![Err("unused".to_string()), Ok("42".to_string())];
    assert_eq!(run_build(&build, s, &defaults, &Ok(())).result, Ok(lorem(&["1", "42"])));
}

#[test]
fn a_set_slot_wins_over_the_default() {
    let a = artifact("", &[("ipsum", "default = \"42\"")]);
    let build = a.build.clone().unwrap();
    let defaults = vec![Ok("42".to_string())];
    assert_eq!(run_build(&build, BuilderState::new(1), &defaults, &Ok(())).result, Ok(lorem(&["42"])));
    let s = set(&a, BuilderState::new(1), "ipsum", "7");
    assert_eq!(run_build(&build, s, &defaults, &Ok(())).result, Ok(lorem(&["7"])));
    let s = set(&a, BuilderState::new(1), "ipsum", "7");
    assert_eq!(
        run_build(&build, s, &vec![Err("boom".to_string())], &Ok(())).result,
        Ok(lorem(&["7"]))
    );
}

#[test]
fn a_failing_default_fails_the_build() {
    let a = artifact("", &[("ipsum", ""), ("dolor", "default = \"self.default_dolor()?\"")]);
    let build = a.build.clone().unwrap();
    let s = set(&a, BuilderState::new(2), "ipsum", "ip");
    let defaults = vec![Err("unused".to_string()), Err("ipsum must at least 3 chars to build dolor".to_string())];
    assert_eq!(
        run_build(&build, s, &defaults, &Ok(())).result,
        Err(BuildError::DefaultFailed {
            index: 1,
            message: "ipsum must at least 3 chars to build dolor".to_string(),
        })
    );
}

#[test]
fn a_missing_field_before_a_failing_default_is_reported_first() {
    let a = artifact("", &[("ipsum", ""), ("dolor", "default")]);
    let build = a.build.clone().unwrap();
    let defaults = vec![Ok("unused".to_string()), Err("no".to_string())];
    assert_eq!(run_build(&build, BuilderState::new(2), &defaults, &Ok(())).result, Err(missing(0, "ipsum")));
}

#[test]
fn a_failing_validator_blocks_the_record() {
    let a = artifact("build_fn(validate = \"LoremBuilder::validate\")", &[("ipsum", "default = \"42\"")]);
    let build = a.build.clone().unwrap();
    let verdict = Err("You'll tire yourself out".to_string());
    for value in ["120", "0", "anything"] {
        let s = set(&a, BuilderState::new(1), "ipsum", value);
        assert_eq!(
            run_build(&build, s, &vec![Ok("42".to_string())], &verdict).result,
            Err(BuildError::Validation { message: "You'll tire yourself out".to_string() })
        );
    }
    assert_eq!(
        run_build(&build, BuilderState::new(1), &vec![Ok("42".to_string())], &verdict).result,
        Err(BuildError::Validation { message: "You'll tire yourself out".to_string() })
    );
    assert_eq!(
        run_build(&build, BuilderState::new(1), &vec![Ok("42".to_string())], &Ok(())).result,
        Ok(lorem(&["42"]))
    );
}

#[test]
fn a_missing_field_is_reported_before_the_validator_is_asked() {
    let a = artifact("build_fn(validate = \"check\")", &[("ipsum", "")]);
    let build = a.build.clone().unwrap();
    assert_eq!(
        run_build(&build, BuilderState::new(1), &no_defaults(1), &Err("refused".to_string())).result,
        Err(missing(0, "ipsum"))
    );
}

#[test]
fn a_verdict_without_a_validator_is_not_looked_at() {
    let a = artifact("", &[("ipsum", "")]);
    let build = a.build.clone().unwrap();
    let s = set(&a, BuilderState::new(1), "ipsum", "1");
    assert_eq!(run_build(&build, s, &no_defaults(1), &Err("refused".to_string())).result, Ok(lorem(&["1"])));
}

#[test]
fn an_owned_build_consumes_the_builder() {
    let a = artifact("pattern = \"owned\"", &[("ipsum", "")]);
    let build = a.build.clone().unwrap();
    assert_eq!(build.receiver, Receiver::Consumed);
    let s = set(&a, BuilderState::new(1), "ipsum", "1");
    assert_eq!(
        run_build(&build, s, &no_defaults(1), &Ok(())),
        BuildOutcome { result: Ok(lorem(&["1"])), builder: None }
    );
}

#[test]
fn a_borrowing_build_can_be_repeated() {
    for pattern in ["mutable", "immutable"] {
        let a = artifact(&format!("pattern = \"{}\"", pattern), &[("a", ""), ("b", "default")]);
        let build = a.build.clone().unwrap();
        let s = set(&a, BuilderState::new(2), "a", "1");
        let defaults = vec![Err("unused".to_string()), Ok("0".to_string())];
        let first = run_build(&build, s.copy(), &defaults, &Ok(()));
        assert_eq!(first.builder, Some(s));
        let second = run_build(&build, first.builder.unwrap(), &defaults, &Ok(()));
        assert_eq!(second.result, first.result);
        assert_eq!(second.result, Ok(lorem(&["1", "0"])));
    }
}

#[test]
fn setters_hand_the_builder_back_by_the_pattern() {
    let before = state(&[Some("old"), None]);
    let after = state(&[Some("old"), Some("new")]);
    let mut op = SetterOp {
        name: "b".to_string(),
        field: 1,
        value_type: "u32".to_string(),
        parameter: Parameter::Exact,
        receiver: Receiver::Consumed,
        result: Handback::ByValue,
        visibility: derive_builder::directive::Visibility::Public,
        annotations: vec![],
    };
    assert_eq!(
        run_setter(&op, before.copy(), Ok("new".to_string())),
        SetterOutcome { handed_back: Ok(after.copy()), receiver: None }
    );
    op.receiver = Receiver::Exclusive;
    op.result = Handback::SameBorrow;
    assert_eq!(
        run_setter(&op, before.copy(), Ok("new".to_string())),
        SetterOutcome { handed_back: Ok(after.copy()), receiver: Some(after.copy()) }
    );
    op.receiver = Receiver::Shared;
    op.result = Handback::FreshCopy;
    assert_eq!(
        run_setter(&op, before.copy(), Ok("new".to_string())),
        SetterOutcome { handed_back: Ok(after.copy()), receiver: Some(before.copy()) }
    );
}

#[test]
fn a_failed_fallible_setter_changes_no_slot() {
    let a = artifact("", &[("ipsum", "try_setter")]);
    let op = setter_of(&a, "try_ipsum");
    let before = state(&[Some("1")]);
    assert_eq!(
        run_setter(&op, before.copy(), Err("out of range".to_string())),
        SetterOutcome { handed_back: Err("out of range".to_string()), receiver: Some(before.copy()) }
    );
    assert_eq!(
        run_setter(&op, before.copy(), Ok("2".to_string())).handed_back,
        Ok(state(&[Some("2")]))
    );
}

#[test]
fn a_failed_fallible_setter_loses_an_owned_builder() {
    let a = artifact("pattern = \"owned\"", &[("ipsum", "try_setter")]);
    let op = setter_of(&a, "try_ipsum");
    assert_eq!(op.receiver, Receiver::Consumed);
    assert_eq!(
        run_setter(&op, state(&[Some("1")]), Err("out of range".to_string())),
        SetterOutcome { handed_back: Err("out of range".to_string()), receiver: None }
    );
}

#[test]
fn a_type_default_is_taken_like_any_default() {
    let a = artifact("default", &[("a", ""), ("b", "")]);
    let build = a.build.clone().unwrap();
    assert_eq!(build.initializers[0].fallback, DefaultRule::TypeDefault);
    let defaults = vec![Ok("0".to_string()), Ok("".to_string())];
    assert_eq!(run_build(&build, BuilderState::new(2), &defaults, &Ok(())).result, Ok(lorem(&["0", ""])));
}

#[test]
fn an_empty_record_is_built_from_nothing() {
    let build = BuildOp {
        name: "build".to_string(),
        target: "Lorem".to_string(),
        receiver: derive_builder::pattern::select(Pattern::Mutable).build_receiver,
        initializers: vec![],
        validator: None,
    };
    assert_eq!(
        run_build(&build, BuilderState::new(0), &vec![], &Ok(())),
        BuildOutcome { result: Ok(lorem(&[])), builder: Some(BuilderState::new(0)) }
    );
}
