use derive_builder::directive::{
    ConfigurationError, ConfigurationFault, DefaultRule, Directive, Pattern, Scope, Visibility,
};
use derive_builder::grammar::{Entry, Literal};
use derive_builder::interpret::{interpret, interpret_all, parse_directives};

fn refused(fault: ConfigurationFault, key: &str, scope: Scope) -> ConfigurationError {
    ConfigurationError { fault, key: key.to_string(), scope }
}

#[test]
fn pattern_values() {
    assert_eq!(parse_directives("pattern = \"owned\"", Scope::Record), Ok(vec![Directive::Pattern(Pattern::Owned)]));
    assert_eq!(parse_directives("pattern = \"mutable\"", Scope::Field), Ok(vec![Directive::Pattern(Pattern::Mutable)]));
    assert_eq!(
        parse_directives("pattern = \"immutable\"", Scope::Record),
        Ok(vec![Directive::Pattern(Pattern::Immutable)])
    );
}

#[test]
fn pattern_outside_its_domain_is_malformed() {
    let e = refused(ConfigurationFault::MalformedValue, "pattern", Scope::Record);
    assert_eq!(parse_directives("pattern = \"fast\"", Scope::Record), Err(e.clone()));
    assert_eq!(parse_directives("pattern", Scope::Record), Err(e.clone()));
    assert_eq!(parse_directives("pattern = true", Scope::Record), Err(e));
}

#[test]
fn bare_setter_switches_the_setter_on() {
    assert_eq!(parse_directives("setter", Scope::Field), Ok(vec![Directive::SetterSkip(false)]));
    assert_eq!(
        parse_directives("setter = \"x\"", Scope::Field),
        Err(refused(ConfigurationFault::MalformedValue, "setter", Scope::Field))
    );
}

#[test]
fn setter_skip_forms() {
    assert_eq!(parse_directives("setter(skip)", Scope::Record), Ok(vec![Directive::SetterSkip(true)]));
    assert_eq!(parse_directives("setter(skip = \"true\")", Scope::Field), Ok(vec![Directive::SetterSkip(true)]));
    assert_eq!(parse_directives("setter(skip = \"false\")", Scope::Field), Ok(vec![Directive::SetterSkip(false)]));
    assert_eq!(parse_directives("setter(skip = false)", Scope::Field), Ok(vec![Directive::SetterSkip(false)]));
    assert_eq!(
        parse_directives("setter(skip = \"maybe\")", Scope::Field),
        Err(refused(ConfigurationFault::MalformedValue, "setter.skip", Scope::Field))
    );
}

#[test]
fn setter_into_forms() {
    assert_eq!(parse_directives("setter(into)", Scope::Record), Ok(vec![Directive::SetterInto(true)]));
    assert_eq!(parse_directives("setter(into = false)", Scope::Field), Ok(vec![Directive::SetterInto(false)]));
}

#[test]
fn setter_name_and_prefix_are_identifiers() {
    assert_eq!(
        parse_directives("setter(name = \"foo\")", Scope::Field),
        Ok(vec![Directive::SetterName("foo".to_string())])
    );
    assert_eq!(
        parse_directives("setter(prefix = \"with\")", Scope::Record),
        Ok(vec![Directive::SetterPrefix("with".to_string())])
    );
    assert_eq!(
        parse_directives("setter(prefix = \"9x\")", Scope::Record),
        Err(refused(ConfigurationFault::MalformedValue, "setter.prefix", Scope::Record))
    );
    assert_eq!(
        parse_directives("setter(name = \"a b\")", Scope::Field),
        Err(refused(ConfigurationFault::MalformedValue, "setter.name", Scope::Field))
    );
    assert_eq!(
        parse_directives("setter(name)", Scope::Field),
        Err(refused(ConfigurationFault::MalformedValue, "setter.name", Scope::Field))
    );
}

#[test]
fn setter_name_is_for_fields_only() {
    assert_eq!(
        parse_directives("setter(name = \"foo\")", Scope::Record),
        Err(refused(ConfigurationFault::UnknownKey, "setter.name", Scope::Record))
    );
}

#[test]
fn visibility_words() {
    assert_eq!(
        parse_directives("public", Scope::Record),
        Ok(vec![Directive::SetterVisibility(Visibility::Public)])
    );
    assert_eq!(
        parse_directives("private", Scope::Field),
        Ok(vec![Directive::SetterVisibility(Visibility::Private)])
    );
    assert_eq!(
        parse_directives("private = true", Scope::Field),
        Err(refused(ConfigurationFault::MalformedValue, "private", Scope::Field))
    );
}

#[test]
fn try_setter_is_for_fields_only() {
    assert_eq!(parse_directives("try_setter", Scope::Field), Ok(vec![Directive::TrySetter(true)]));
    assert_eq!(parse_directives("try_setter = \"false\"", Scope::Field), Ok(vec![Directive::TrySetter(false)]));
    assert_eq!(
        parse_directives("try_setter", Scope::Record),
        Err(refused(ConfigurationFault::UnknownKey, "try_setter", Scope::Record))
    );
}

#[test]
fn default_forms() {
    assert_eq!(parse_directives("default", Scope::Field), Ok(vec![Directive::Default(DefaultRule::TypeDefault)]));
    assert_eq!(
        parse_directives("default = \"42\"", Scope::Record),
        Ok(vec![Directive::Default(DefaultRule::Expression("42".to_string()))])
    );
    assert_eq!(
        parse_directives("default = \"self.default_dolor()?\"", Scope::Field),
        Ok(vec![Directive::Default(DefaultRule::Expression("self.default_dolor()?".to_string()))])
    );
    assert_eq!(
        parse_directives("default = true", Scope::Field),
        Err(refused(ConfigurationFault::MalformedValue, "default", Scope::Field))
    );
}

#[test]
fn build_fn_forms() {
    assert_eq!(parse_directives("build_fn(skip)", Scope::Record), Ok(vec![Directive::BuildFnSkip(true)]));
    assert_eq!(
        parse_directives("build_fn(name = \"finish\")", Scope::Record),
        Ok(vec![Directive::BuildFnName("finish".to_string())])
    );
    assert_eq!(
        parse_directives("build_fn(validate = \"LoremBuilder::validate\")", Scope::Record),
        Ok(vec![Directive::BuildFnValidate("LoremBuilder::validate".to_string())])
    );
    assert_eq!(
        parse_directives("build_fn(name = \"a-b\")", Scope::Record),
        Err(refused(ConfigurationFault::MalformedValue, "build_fn.name", Scope::Record))
    );
    assert_eq!(
        parse_directives("build_fn(validate)", Scope::Record),
        Err(refused(ConfigurationFault::MalformedValue, "build_fn.validate", Scope::Record))
    );
    assert_eq!(
        parse_directives("build_fn(fast)", Scope::Record),
        Err(refused(ConfigurationFault::UnknownKey, "build_fn.fast", Scope::Record))
    );
    assert_eq!(
        parse_directives("build_fn", Scope::Record),
        Err(refused(ConfigurationFault::MalformedValue, "build_fn", Scope::Record))
    );
}

#[test]
fn build_fn_and_derive_are_for_the_record_only() {
    assert_eq!(
        parse_directives("build_fn(skip)", Scope::Field),
        Err(refused(ConfigurationFault::UnknownKey, "build_fn.skip", Scope::Field))
    );
    assert_eq!(
        parse_directives("derive(Debug)", Scope::Field),
        Err(refused(ConfigurationFault::UnknownKey, "derive.Debug", Scope::Field))
    );
    assert_eq!(
        parse_directives("build_fn", Scope::Field),
        Err(refused(ConfigurationFault::UnknownKey, "build_fn", Scope::Field))
    );
}

#[test]
fn derive_gives_one_directive_for_each_name() {
    assert_eq!(
        parse_directives("derive(Debug, PartialEq, Eq)", Scope::Record),
        Ok(vec![
            Directive::Derive("Debug".to_string()),
            Directive::Derive("PartialEq".to_string()),
            Directive::Derive("Eq".to_string()),
        ])
    );
    assert_eq!(
        parse_directives("derive(Debug = \"x\")", Scope::Record),
        Err(refused(ConfigurationFault::MalformedValue, "derive.Debug", Scope::Record))
    );
    assert_eq!(
        parse_directives("derive", Scope::Record),
        Err(refused(ConfigurationFault::MalformedValue, "derive", Scope::Record))
    );
}

#[test]
fn unknown_keys_are_refused_with_key_and_place() {
    assert_eq!(
        parse_directives("no_std", Scope::Record),
        Err(refused(ConfigurationFault::UnknownKey, "no_std", Scope::Record))
    );
    assert_eq!(
        parse_directives("setter(fast)", Scope::Field),
        Err(refused(ConfigurationFault::UnknownKey, "setter.fast", Scope::Field))
    );
    assert_eq!(
        parse_directives("lorem(ipsum)", Scope::Field),
        Err(refused(ConfigurationFault::UnknownKey, "lorem.ipsum", Scope::Field))
    );
}

#[test]
fn the_first_refused_entry_is_reported() {
    assert_eq!(
        parse_directives("public, foo, pattern = \"fast\"", Scope::Record),
        Err(refused(ConfigurationFault::UnknownKey, "foo", Scope::Record))
    );
    assert_eq!(
        parse_directives("public, pattern = \"fast\", foo", Scope::Record),
        Err(refused(ConfigurationFault::MalformedValue, "pattern", Scope::Record))
    );
}

#[test]
fn a_text_outside_the_grammar_is_a_syntax_fault() {
    assert_eq!(
        parse_directives("setter(", Scope::Field),
        Err(refused(ConfigurationFault::Syntax { at: 7 }, "", Scope::Field))
    );
    assert_eq!(
        parse_directives("foo, bar baz", Scope::Record),
        Err(refused(ConfigurationFault::Syntax { at: 9 }, "", Scope::Record))
    );
}

#[test]
fn several_directives_in_one_text() {
    assert_eq!(
        parse_directives("try_setter, setter(into, name = \"foo\")", Scope::Field),
        Ok(vec![
            Directive::TrySetter(true),
            Directive::SetterInto(true),
            Directive::SetterName("foo".to_string()),
        ])
    );
    assert_eq!(parse_directives("", Scope::Field), Ok(vec![]));
}

#[test]
fn one_entry_is_read_by_itself() {
    let entry = Entry { key: "setter".to_string(), sub: Some("into".to_string()), value: None };
    assert_eq!(interpret(&entry, Scope::Field), Ok(Directive::SetterInto(true)));
    let entry = Entry {
        key: "setter".to_string(),
        sub: Some("into".to_string()),
        value: Some(Literal::Text("no".to_string())),
    };
    assert_eq!(
        interpret(&entry, Scope::Field),
        Err(refused(ConfigurationFault::MalformedValue, "setter.into", Scope::Field))
    );
}

#[test]
fn entries_are_read_in_order() {
    let entries = vec![
        Entry { key: "public".to_string(), sub: None, value: None },
        Entry { key: "default".to_string(), sub: None, value: None },
    ];
    assert_eq!(
        interpret_all(&entries, Scope::Field),
        Ok(vec![Directive::SetterVisibility(Visibility::Public), Directive::Default(DefaultRule::TypeDefault)])
    );
    assert_eq!(interpret_all(&vec![], Scope::Record), Ok(vec![]));
}
