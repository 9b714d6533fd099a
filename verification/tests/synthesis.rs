use derive_builder::artifact::{
    assemble, check_consistent, ConsistencyError, SynthesisError, SynthesizedArtifact,
};
use derive_builder::build_op::{synthesize_build, BuildOp};
use derive_builder::directive::{
    ConfigurationError, ConfigurationFault, DefaultRule, Pattern, Scope, Visibility,
};
use derive_builder::field::{
    reference_type, synthesize_field, synthesize_setters, FieldParts, Initializer, Parameter,
    SetterOp, SlotType, StorageField,
};
use derive_builder::pattern::{Handback, Receiver};
use derive_builder::resolve::{EffectiveBuildConfig, EffectiveFieldConfig, Settings};
use derive_builder::schema::{forwards_annotation, FieldSchema, RecordSchema};
use derive_builder::synthesis::{builder_for_struct, field_for_struct};

fn field(name: &str, ty: &str, directives: &str) -> FieldSchema {
    FieldSchema {
        name: name.to_string(),
        value_type: ty.to_string(),
        directives: directives.to_string(),
        annotations: vec![],
    }
}

fn record(name: &str, directives: &str, fields: Vec<FieldSchema>) -> RecordSchema {
    RecordSchema { name: name.to_string(), fields, directives: directives.to_string() }
}

fn storage(name: &str, ty: &str) -> StorageField {
    StorageField { name: name.to_string(), value_type: ty.to_string(), slot: SlotType::Declared, annotations: vec![] }
}

fn setter(name: &str, index: usize, ty: &str) -> SetterOp {
    SetterOp {
        name: name.to_string(),
        field: index,
        value_type: ty.to_string(),
        parameter: Parameter::Exact,
        receiver: Receiver::Exclusive,
        result: Handback::SameBorrow,
        visibility: Visibility::Public,
        annotations: vec![],
    }
}

fn required(name: &str) -> Initializer {
    Initializer { field: name.to_string(), copies: true, fallback: DefaultRule::Required }
}

fn config(name: &str) -> EffectiveFieldConfig {
    EffectiveFieldConfig {
        field: name.to_string(),
        pattern: Pattern::Mutable,
        setter_enabled: true,
        setter_name: name.to_string(),
        setter_into: false,
        visibility: Visibility::Public,
        try_setter: false,
        default: DefaultRule::Required,
    }
}

fn build_config() -> EffectiveBuildConfig {
    EffectiveBuildConfig { pattern: Pattern::Mutable, enabled: true, name: "build".to_string(), validate: None }
}

#[test]
fn a_plain_record_gets_a_plain_builder() {
    let schema = record("Lorem", "", vec![field("ipsum", "u32", "")]);
    assert_eq!(
        builder_for_struct(&schema),
        Ok(SynthesizedArtifact {
            builder_name: "LoremBuilder".to_string(),
            storage: vec![storage("ipsum", "u32")],
            setters: vec![setter("ipsum", 0, "u32")],
            build: Some(BuildOp {
                name: "build".to_string(),
                target: "Lorem".to_string(),
                receiver: Receiver::Shared,
                initializers: vec![required("ipsum")],
                validator: None,
            }),
            derives: vec![],
        })
    );
}

#[test]
fn a_record_without_fields_gets_an_empty_builder() {
    let a = builder_for_struct(&record("Unit", "", vec![])).unwrap();
    assert_eq!(a.builder_name, "UnitBuilder".to_string());
    assert!(a.storage.is_empty());
    assert!(a.setters.is_empty());
    assert_eq!(a.build.unwrap().initializers, vec![]);
}

#[test]
fn fields_keep_the_order_of_their_declaration() {
    let schema = record(
        "Lorem",
        "",
        vec![field("a", "u8", ""), field("b", "String", "setter(skip), default"), field("c", "i32", "try_setter")],
    );
    let a = builder_for_struct(&schema).unwrap();
    let names: Vec<String> = a.storage.iter().map(|s| s.name.clone()).collect();
    assert_eq!(names, vec!["a".to_string(), "b".to_string(), "c".to_string()]);
    let setters: Vec<(String, usize)> = a.setters.iter().map(|s| (s.name.clone(), s.field)).collect();
    assert_eq!(
        setters,
        vec![("a".to_string(), 0), ("c".to_string(), 2), ("try_c".to_string(), 2)]
    );
    let inits: Vec<String> = a.build.unwrap().initializers.iter().map(|i| i.field.clone()).collect();
    assert_eq!(names, inits);
}

#[test]
fn the_owned_pattern_shapes_setters_and_build() {
    let schema = record("Lorem", "pattern = \"owned\"", vec![field("ipsum", "u32", "")]);
    let a = builder_for_struct(&schema).unwrap();
    assert_eq!(a.setters[0].receiver, Receiver::Consumed);
    assert_eq!(a.setters[0].result, Handback::ByValue);
    let build = a.build.unwrap();
    assert_eq!(build.receiver, Receiver::Consumed);
    assert!(!build.initializers[0].copies);
}

#[test]
fn the_immutable_pattern_shapes_setters_and_build() {
    let schema = record("Lorem", "pattern = \"immutable\"", vec![field("ipsum", "u32", "")]);
    let a = builder_for_struct(&schema).unwrap();
    assert_eq!(a.setters[0].receiver, Receiver::Shared);
    assert_eq!(a.setters[0].result, Handback::FreshCopy);
    let build = a.build.unwrap();
    assert_eq!(build.receiver, Receiver::Shared);
    assert!(build.initializers[0].copies);
}

#[test]
fn a_field_pattern_shapes_only_the_setters_of_the_field() {
    let schema = record(
        "Lorem",
        "",
        vec![field("a", "u8", "pattern = \"owned\""), field("b", "u8", "")],
    );
    let a = builder_for_struct(&schema).unwrap();
    assert_eq!(a.setters[0].receiver, Receiver::Consumed);
    assert_eq!(a.setters[1].receiver, Receiver::Exclusive);
    let build = a.build.unwrap();
    assert_eq!(build.receiver, Receiver::Shared);
    assert!(build.initializers[0].copies);
}

#[test]
fn into_makes_the_setter_take_what_converts() {
    let schema = record("Lorem", "", vec![field("ipsum", "String", "setter(into)")]);
    let a = builder_for_struct(&schema).unwrap();
    assert_eq!(a.setters[0].parameter, Parameter::ConvertsInto);
    assert_eq!(a.setters[0].value_type, "String".to_string());
}

#[test]
fn try_setter_adds_a_fallible_setter() {
    let schema = record("Ipsum", "", vec![field("dolor", "u8", "try_setter, setter(into, name = \"foo\")")]);
    let a = builder_for_struct(&schema).unwrap();
    assert_eq!(a.setters.len(), 2);
    assert_eq!(a.setters[0].name, "foo".to_string());
    assert_eq!(a.setters[0].parameter, Parameter::ConvertsInto);
    assert_eq!(a.setters[1].name, "try_foo".to_string());
    assert_eq!(a.setters[1].parameter, Parameter::FallibleConvertsInto);
    assert_eq!(a.setters[1].field, 0);
    assert_eq!(a.setters[1].receiver, a.setters[0].receiver);
}

#[test]
fn a_skipped_setter_takes_the_fallible_one_with_it() {
    let mut c = config("x");
    c.setter_enabled = false;
    c.try_setter = true;
    c.default = DefaultRule::TypeDefault;
    assert_eq!(synthesize_setters(0, &field("x", "u8", ""), &c), vec![]);
}

#[test]
fn a_skipped_field_has_storage_and_initializer_but_no_setter() {
    let schema = record(
        "SetterOptOut",
        "",
        vec![field("setter_present", "u32", ""), field("setter_skipped", "u32", "setter(skip), default = \"7\"")],
    );
    let a = builder_for_struct(&schema).unwrap();
    assert_eq!(a.storage.len(), 2);
    assert_eq!(a.setters.len(), 1);
    assert_eq!(a.setters[0].field, 0);
    assert_eq!(
        a.build.unwrap().initializers[1],
        Initializer {
            field: "setter_skipped".to_string(),
            copies: true,
            fallback: DefaultRule::Expression("7".to_string()),
        }
    );
}

#[test]
fn record_skip_with_a_field_opting_in() {
    let schema = record(
        "Lorem",
        "setter(skip), default",
        vec![field("a", "u8", "setter"), field("b", "u8", "")],
    );
    let a = builder_for_struct(&schema).unwrap();
    assert_eq!(a.setters.len(), 1);
    assert_eq!(a.setters[0].name, "a".to_string());
}

#[test]
fn a_skipped_build_leaves_the_setters() {
    let schema = record("Lorem", "build_fn(skip)", vec![field("a", "u8", ""), field("b", "u8", "")]);
    let a = builder_for_struct(&schema).unwrap();
    assert_eq!(a.build, None);
    assert_eq!(a.setters.len(), 2);
    assert_eq!(a.storage.len(), 2);
}

#[test]
fn build_name_and_validator_go_into_the_build_operation() {
    let schema = record(
        "Lorem",
        "build_fn(name = \"finish\", validate = \"LoremBuilder::validate\")",
        vec![field("ipsum", "u8", "default = \"42\"")],
    );
    let build = builder_for_struct(&schema).unwrap().build.unwrap();
    assert_eq!(build.name, "finish".to_string());
    assert_eq!(build.validator, Some("LoremBuilder::validate".to_string()));
    assert_eq!(build.target, "Lorem".to_string());
}

#[test]
fn the_derive_list_is_taken_as_it_is() {
    let schema = record("Lorem", "derive(Debug, PartialEq, Eq), derive(Debug)", vec![]);
    assert_eq!(
        builder_for_struct(&schema).unwrap().derives,
        vec!["Debug".to_string(), "PartialEq".to_string(), "Eq".to_string(), "Debug".to_string()]
    );
}

#[test]
fn a_reference_is_stored_in_its_owned_form() {
    let schema = record("GenLorem", "", vec![field("ipsum", "&'static str", ""), field("dolor", "T", "")]);
    let a = builder_for_struct(&schema).unwrap();
    assert_eq!(a.storage[0].slot, SlotType::OwnedForm);
    assert_eq!(a.storage[0].value_type, "&'static str".to_string());
    assert_eq!(a.storage[1].slot, SlotType::Declared);
}

#[test]
fn reference_types_start_with_an_ampersand() {
    assert!(reference_type("&str"));
    assert!(reference_type("  &'a mut T"));
    assert!(!reference_type("Vec<&str>"));
    assert!(!reference_type(""));
    assert!(!reference_type("   "));
}

#[test]
fn annotations_go_to_storage_and_setters() {
    let mut f = field("ipsum", "String", "try_setter");
    f.annotations = vec!["/// `ipsum` may be any `String`.".to_string(), "#[allow(non_snake_case)]".to_string()];
    let a = builder_for_struct(&record("Lorem", "", vec![f.clone()])).unwrap();
    assert_eq!(a.storage[0].annotations, f.annotations);
    assert_eq!(a.setters[0].annotations, f.annotations);
    assert_eq!(a.setters[1].annotations, f.annotations);
}

#[test]
fn forwarded_annotations() {
    assert!(forwards_annotation("doc"));
    assert!(forwards_annotation("cfg"));
    assert!(forwards_annotation("allow"));
    assert!(!forwards_annotation("builder"));
    assert!(!forwards_annotation("serde"));
    assert!(!forwards_annotation(""));
}

#[test]
fn a_refused_record_directive_names_no_field() {
    let schema = record("Lorem", "no_std", vec![field("ipsum", "u32", "")]);
    assert_eq!(
        builder_for_struct(&schema),
        Err(SynthesisError::Configuration {
            error: ConfigurationError {
                fault: ConfigurationFault::UnknownKey,
                key: "no_std".to_string(),
                scope: Scope::Record,
            },
            field: None,
        })
    );
}

#[test]
fn a_refused_field_directive_names_the_field() {
    let schema = record(
        "Lorem",
        "",
        vec![field("a", "u8", ""), field("b", "u8", "pattern = \"fast\""), field("c", "u8", "bogus")],
    );
    assert_eq!(
        builder_for_struct(&schema),
        Err(SynthesisError::Configuration {
            error: ConfigurationError {
                fault: ConfigurationFault::MalformedValue,
                key: "pattern".to_string(),
                scope: Scope::Field,
            },
            field: Some(1),
        })
    );
}

#[test]
fn the_record_is_read_before_the_fields() {
    let schema = record("Lorem", "setter(", vec![field("a", "u8", "bogus")]);
    assert_eq!(
        builder_for_struct(&schema),
        Err(SynthesisError::Configuration {
            error: ConfigurationError {
                fault: ConfigurationFault::Syntax { at: 7 },
                key: "".to_string(),
                scope: Scope::Record,
            },
            field: None,
        })
    );
}

#[test]
fn a_field_without_setter_and_default_is_refused() {
    let schema = record("Lorem", "", vec![field("a", "u8", ""), field("b", "u8", "setter(skip)")]);
    assert_eq!(
        builder_for_struct(&schema),
        Err(SynthesisError::Configuration {
            error: ConfigurationError {
                fault: ConfigurationFault::SkippedWithoutDefault,
                key: "setter.skip".to_string(),
                scope: Scope::Field,
            },
            field: Some(1),
        })
    );
}

#[test]
fn one_field_is_synthesized_by_itself() {
    let record = Settings::new();
    let parts = field_for_struct(&record, 3, &field("ipsum", "u32", "setter(prefix = \"with\")")).unwrap();
    assert_eq!(parts.storage, storage("ipsum", "u32"));
    assert_eq!(parts.setters, vec![setter("with_ipsum", 3, "u32")]);
    assert_eq!(parts.initializer, required("ipsum"));
    assert_eq!(
        field_for_struct(&record, 3, &field("ipsum", "u32", "setter(prefix)")).unwrap_err().key,
        "setter.prefix".to_string()
    );
}

#[test]
fn field_parts_follow_the_configuration() {
    let mut c = config("ipsum");
    c.setter_name = "set_it".to_string();
    c.visibility = Visibility::Private;
    c.default = DefaultRule::TypeDefault;
    let parts = synthesize_field(1, &field("ipsum", "u32", ""), &c, Pattern::Owned);
    let mut s = setter("set_it", 1, "u32");
    s.visibility = Visibility::Private;
    assert_eq!(parts.setters, vec![s]);
    assert_eq!(
        parts.initializer,
        Initializer { field: "ipsum".to_string(), copies: false, fallback: DefaultRule::TypeDefault }
    );
}

#[test]
fn a_skipped_build_is_not_synthesized() {
    let mut c = build_config();
    assert!(synthesize_build("Lorem", &c, vec![required("a")]).is_some());
    c.enabled = false;
    assert_eq!(synthesize_build("Lorem", &c, vec![required("a")]), None);
}

#[test]
fn consistent_parts_are_assembled() {
    let parts = vec![
        FieldParts { storage: storage("a", "u8"), setters: vec![setter("a", 0, "u8")], initializer: required("a") },
        FieldParts {
            storage: storage("b", "u8"),
            setters: vec![],
            initializer: Initializer { field: "b".to_string(), copies: true, fallback: DefaultRule::TypeDefault },
        },
    ];
    let a = assemble("Lorem", &parts, &build_config(), vec!["Debug".to_string()]).unwrap();
    assert_eq!(a.builder_name, "LoremBuilder".to_string());
    assert_eq!(a.storage, vec![storage("a", "u8"), storage("b", "u8")]);
    assert_eq!(a.setters, vec![setter("a", 0, "u8")]);
    assert_eq!(a.derives, vec!["Debug".to_string()]);
    assert_eq!(a.build.unwrap().initializers.len(), 2);
}

#[test]
fn a_field_with_no_setter_and_no_default_is_inconsistent() {
    let bad = FieldParts { storage: storage("b", "u8"), setters: vec![], initializer: required("b") };
    assert!(!check_consistent(&bad, 1));
    let good = FieldParts { storage: storage("a", "u8"), setters: vec![setter("a", 0, "u8")], initializer: required("a") };
    assert!(check_consistent(&good, 0));
    assert_eq!(
        assemble("Lorem", &vec![good, bad], &build_config(), vec![]),
        Err(ConsistencyError { field: 1 })
    );
}

#[test]
fn a_field_with_two_plain_setters_is_inconsistent() {
    let bad = FieldParts {
        storage: storage("a", "u8"),
        setters: vec![setter("a", 0, "u8"), setter("a2", 0, "u8")],
        initializer: required("a"),
    };
    assert!(!check_consistent(&bad, 0));
    assert_eq!(assemble("Lorem", &vec![bad], &build_config(), vec![]), Err(ConsistencyError { field: 0 }));
}

#[test]
fn a_fallible_setter_alone_is_inconsistent() {
    let mut fallible = setter("try_a", 0, "u8");
    fallible.parameter = Parameter::FallibleConvertsInto;
    let bad = FieldParts { storage: storage("a", "u8"), setters: vec![fallible.clone()], initializer: required("a") };
    assert!(!check_consistent(&bad, 0));
    let good = FieldParts {
        storage: storage("a", "u8"),
        setters: vec![setter("a", 0, "u8"), fallible],
        initializer: required("a"),
    };
    assert!(check_consistent(&good, 0));
}

#[test]
fn a_setter_for_another_field_is_inconsistent() {
    let bad = FieldParts { storage: storage("a", "u8"), setters: vec![setter("a", 1, "u8")], initializer: required("a") };
    assert!(!check_consistent(&bad, 0));
    assert!(check_consistent(&bad, 1));
}

#[test]
fn an_initializer_for_another_field_is_inconsistent() {
    let bad = FieldParts { storage: storage("a", "u8"), setters: vec![setter("a", 0, "u8")], initializer: required("b") };
    assert!(!check_consistent(&bad, 0));
}

#[test]
fn distinct_names_are_recognised() {
    assert!(record("L", "", vec![]).has_distinct_names());
    assert!(record("L", "", vec![field("a", "u8", ""), field("b", "u8", "")]).has_distinct_names());
    assert!(!record("L", "", vec![field("a", "u8", ""), field("b", "u8", ""), field("a", "i8", "")])
        .has_distinct_names());
}
