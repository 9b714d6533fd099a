use derive_builder::directive::{
    ConfigurationError, ConfigurationFault, DefaultRule, Directive, Pattern, Scope, Visibility,
};
use derive_builder::pattern::{select, Handback, Receiver, SignatureShape};
use derive_builder::resolve::{
    resolve, resolve_build, resolve_field, EffectiveBuildConfig, EffectiveFieldConfig, Settings,
};

fn plain_config(field: &str) -> EffectiveFieldConfig {
    EffectiveFieldConfig {
        field: field.to_string(),
        pattern: Pattern::Mutable,
        setter_enabled: true,
        setter_name: field.to_string(),
        setter_into: false,
        visibility: Visibility::Public,
        try_setter: false,
        default: DefaultRule::Required,
    }
}

#[test]
fn open_settings_resolve_to_the_fixed_values() {
    let open = Settings::new();
    assert_eq!(resolve_field(&open, &open, "ipsum"), Ok(plain_config("ipsum")));
    assert_eq!(
        resolve_build(&open),
        EffectiveBuildConfig { pattern: Pattern::Mutable, enabled: true, name: "build".to_string(), validate: None }
    );
}

#[test]
fn settings_take_the_last_word_on_each_axis() {
    let s = Settings::from_directives(&vec![
        Directive::Pattern(Pattern::Owned),
        Directive::SetterPrefix("with".to_string()),
        Directive::Pattern(Pattern::Immutable),
        Directive::SetterPrefix("set".to_string()),
    ]);
    assert_eq!(s.pattern, Some(Pattern::Immutable));
    assert_eq!(s.setter_prefix, Some("set".to_string()));
    assert_eq!(s.setter_skip, None);
    assert_eq!(s.default, None);
}

#[test]
fn derive_names_accumulate_in_order() {
    let s = Settings::from_directives(&vec![
        Directive::Derive("Debug".to_string()),
        Directive::BuildFnSkip(true),
        Directive::Derive("Eq".to_string()),
        Directive::Derive("Debug".to_string()),
    ]);
    assert_eq!(s.derives, vec!["Debug".to_string(), "Eq".to_string(), "Debug".to_string()]);
    assert_eq!(s.build_skip, Some(true));
}

#[test]
fn one_directive_changes_one_axis() {
    let mut s = Settings::new();
    s.apply(&Directive::SetterInto(true));
    let mut expected = Settings::new();
    expected.setter_into = Some(true);
    assert_eq!(s, expected);
    s.apply(&Directive::BuildFnValidate("check".to_string()));
    expected.validate = Some("check".to_string());
    assert_eq!(s, expected);
    s.apply(&Directive::TrySetter(true));
    s.apply(&Directive::SetterVisibility(Visibility::Private));
    s.apply(&Directive::SetterName("n".to_string()));
    s.apply(&Directive::BuildFnName("b".to_string()));
    s.apply(&Directive::Default(DefaultRule::TypeDefault));
    s.apply(&Directive::SetterSkip(true));
    expected.try_setter = Some(true);
    expected.visibility = Some(Visibility::Private);
    expected.setter_name = Some("n".to_string());
    expected.build_name = Some("b".to_string());
    expected.default = Some(DefaultRule::TypeDefault);
    expected.setter_skip = Some(true);
    assert_eq!(s, expected);
}

#[test]
fn the_record_stands_in_for_what_the_field_leaves_open() {
    let record = Settings::from_directives(&vec![
        Directive::Pattern(Pattern::Owned),
        Directive::SetterInto(true),
        Directive::SetterVisibility(Visibility::Private),
        Directive::Default(DefaultRule::Expression("42".to_string())),
    ]);
    let field = Settings::new();
    let mut expected = plain_config("ipsum");
    expected.pattern = Pattern::Owned;
    expected.setter_into = true;
    expected.visibility = Visibility::Private;
    expected.default = DefaultRule::Expression("42".to_string());
    assert_eq!(resolve_field(&record, &field, "ipsum"), Ok(expected));
}

#[test]
fn the_field_wins_over_the_record_on_every_axis() {
    let record = Settings::from_directives(&vec![
        Directive::Pattern(Pattern::Owned),
        Directive::SetterInto(true),
        Directive::SetterVisibility(Visibility::Private),
        Directive::Default(DefaultRule::Expression("42".to_string())),
        Directive::SetterSkip(true),
        Directive::SetterPrefix("with".to_string()),
    ]);
    let field = Settings::from_directives(&vec![
        Directive::Pattern(Pattern::Immutable),
        Directive::SetterInto(false),
        Directive::SetterVisibility(Visibility::Public),
        Directive::Default(DefaultRule::TypeDefault),
        Directive::SetterSkip(false),
        Directive::SetterPrefix("set".to_string()),
        Directive::TrySetter(true),
    ]);
    assert_eq!(
        resolve_field(&record, &field, "ipsum"),
        Ok(EffectiveFieldConfig {
            field: "ipsum".to_string(),
            pattern: Pattern::Immutable,
            setter_enabled: true,
            setter_name: "set_ipsum".to_string(),
            setter_into: false,
            visibility: Visibility::Public,
            try_setter: true,
            default: DefaultRule::TypeDefault,
        })
    );
}

#[test]
fn the_setter_name_wins_over_every_prefix() {
    let record = Settings::from_directives(&vec![Directive::SetterPrefix("with".to_string())]);
    let field = Settings::from_directives(&vec![
        Directive::SetterPrefix("set".to_string()),
        Directive::SetterName("foo".to_string()),
    ]);
    assert_eq!(resolve_field(&record, &field, "ipsum").unwrap().setter_name, "foo".to_string());
}

#[test]
fn the_prefix_is_joined_to_the_field_name() {
    let record = Settings::from_directives(&vec![Directive::SetterPrefix("with".to_string())]);
    assert_eq!(
        resolve_field(&record, &Settings::new(), "ipsum").unwrap().setter_name,
        "with_ipsum".to_string()
    );
    let field = Settings::from_directives(&vec![Directive::SetterPrefix("xyz".to_string())]);
    assert_eq!(resolve_field(&record, &field, "foo").unwrap().setter_name, "xyz_foo".to_string());
    assert_eq!(resolve_field(&Settings::new(), &field, "foo").unwrap().setter_name, "xyz_foo".to_string());
}

#[test]
fn without_name_and_prefix_the_setter_has_the_field_name() {
    assert_eq!(
        resolve_field(&Settings::new(), &Settings::new(), "dolor").unwrap().setter_name,
        "dolor".to_string()
    );
}

#[test]
fn a_field_may_switch_its_setter_back_on() {
    let record = Settings::from_directives(&vec![Directive::SetterSkip(true)]);
    let field = Settings::from_directives(&vec![Directive::SetterSkip(false)]);
    assert_eq!(resolve_field(&record, &field, "ipsum"), Ok(plain_config("ipsum")));
}

#[test]
fn a_skipped_setter_needs_a_default() {
    let refusal = ConfigurationError {
        fault: ConfigurationFault::SkippedWithoutDefault,
        key: "setter.skip".to_string(),
        scope: Scope::Field,
    };
    let skip = Settings::from_directives(&vec![Directive::SetterSkip(true)]);
    assert_eq!(resolve_field(&Settings::new(), &skip, "ipsum"), Err(refusal.clone()));
    assert_eq!(resolve_field(&skip, &Settings::new(), "ipsum"), Err(refusal));
}

#[test]
fn a_skipped_setter_with_a_default_is_accepted() {
    let field = Settings::from_directives(&vec![
        Directive::SetterSkip(true),
        Directive::Default(DefaultRule::TypeDefault),
    ]);
    let c = resolve_field(&Settings::new(), &field, "ipsum").unwrap();
    assert!(!c.setter_enabled);
    assert_eq!(c.default, DefaultRule::TypeDefault);
    let record = Settings::from_directives(&vec![Directive::Default(DefaultRule::Expression("1".to_string()))]);
    let skip = Settings::from_directives(&vec![Directive::SetterSkip(true)]);
    let c = resolve_field(&record, &skip, "ipsum").unwrap();
    assert!(!c.setter_enabled);
    assert_eq!(c.default, DefaultRule::Expression("1".to_string()));
}

#[test]
fn the_build_configuration_comes_from_the_record() {
    let record = Settings::from_directives(&vec![
        Directive::Pattern(Pattern::Owned),
        Directive::BuildFnName("finish".to_string()),
        Directive::BuildFnValidate("Lorem::check".to_string()),
    ]);
    assert_eq!(
        resolve_build(&record),
        EffectiveBuildConfig {
            pattern: Pattern::Owned,
            enabled: true,
            name: "finish".to_string(),
            validate: Some("Lorem::check".to_string()),
        }
    );
    let record = Settings::from_directives(&vec![Directive::BuildFnSkip(true)]);
    assert!(!resolve_build(&record).enabled);
}

#[test]
fn directives_resolve_to_both_configurations() {
    let record = vec![Directive::Pattern(Pattern::Owned), Directive::BuildFnName("finish".to_string())];
    let field = vec![Directive::SetterInto(true)];
    let (c, b) = resolve(&record, &field, "ipsum").unwrap();
    let mut expected = plain_config("ipsum");
    expected.pattern = Pattern::Owned;
    expected.setter_into = true;
    assert_eq!(c, expected);
    assert_eq!(b.name, "finish".to_string());
    assert_eq!(b.pattern, Pattern::Owned);
    let refused = resolve(&record, &vec![Directive::SetterSkip(true)], "ipsum");
    assert_eq!(refused.unwrap_err().fault, ConfigurationFault::SkippedWithoutDefault);
}

#[test]
fn owned_consumes_everywhere() {
    assert_eq!(
        select(Pattern::Owned),
        SignatureShape {
            setter_receiver: Receiver::Consumed,
            setter_result: Handback::ByValue,
            build_receiver: Receiver::Consumed,
            build_copies: false,
        }
    );
}

#[test]
fn mutable_borrows_and_copies_on_build() {
    assert_eq!(
        select(Pattern::Mutable),
        SignatureShape {
            setter_receiver: Receiver::Exclusive,
            setter_result: Handback::SameBorrow,
            build_receiver: Receiver::Shared,
            build_copies: true,
        }
    );
}

#[test]
fn immutable_copies_everywhere() {
    assert_eq!(
        select(Pattern::Immutable),
        SignatureShape {
            setter_receiver: Receiver::Shared,
            setter_result: Handback::FreshCopy,
            build_receiver: Receiver::Shared,
            build_copies: true,
        }
    );
}
