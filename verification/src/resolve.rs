//! Directive resolution.
//!
//! The directives of one attachment point are first collected into
//! [`Settings`]: one optional value for each axis of configuration. The
//! settings of the record and of a field are then merged into the effective
//! configuration of the field, axis by axis: what the field says wins, what
//! the record says stands in for what the field leaves open, and a fixed
//! value stands in for what both leave open.

use vstd::prelude::*;
use vstd::string::*;
use crate::directive::{
    ConfigurationError, ConfigurationErrorView, ConfigurationFault, DefaultRule, DefaultRuleView,
    Directive, DirectiveView, Pattern, Scope, Visibility,
};
use crate::text::{
    copy_opt_text, join_with_underscore, joined, opt_text, views_of, views_of_empty, views_of_push,
};

verus! {

/// What the directives of one attachment point say, axis by axis. `None`
/// where they leave an axis open.
#[derive(Clone, Debug, PartialEq, Eq)]
pub struct Settings {
    pub pattern: Option<Pattern>,
    pub setter_skip: Option<bool>,
    pub setter_name: Option<String>,
    pub setter_prefix: Option<String>,
    pub setter_into: Option<bool>,
    pub visibility: Option<Visibility>,
    pub try_setter: Option<bool>,
    pub default: Option<DefaultRule>,
    pub build_skip: Option<bool>,
    pub build_name: Option<String>,
    pub validate: Option<String>,
    /// The names given by `derive(..)`, in the order in which they came.
    pub derives: Vec<String>,
}

/// Model of [`Settings`].
pub struct SettingsView {
    pub pattern: Option<Pattern>,
    pub setter_skip: Option<bool>,
    pub setter_name: Option<Seq<char>>,
    pub setter_prefix: Option<Seq<char>>,
    pub setter_into: Option<bool>,
    pub visibility: Option<Visibility>,
    pub try_setter: Option<bool>,
    pub default: Option<DefaultRuleView>,
    pub build_skip: Option<bool>,
    pub build_name: Option<Seq<char>>,
    pub validate: Option<Seq<char>>,
    pub derives: Seq<Seq<char>>,
}

/// The view of an optional default rule.
pub open spec fn opt_rule(o: Option<DefaultRule>) -> Option<DefaultRuleView> {
    match o {
        Some(d) => Some(d@),
        None => None,
    }
}

impl View for Settings {
    type V = SettingsView;

    open spec fn view(&self) -> SettingsView {
        SettingsView {
            pattern: self.pattern,
            setter_skip: self.setter_skip,
            setter_name: opt_text(self.setter_name),
            setter_prefix: opt_text(self.setter_prefix),
            setter_into: self.setter_into,
            visibility: self.visibility,
            try_setter: self.try_setter,
            default: opt_rule(self.default),
            build_skip: self.build_skip,
            build_name: opt_text(self.build_name),
            validate: opt_text(self.validate),
            derives: views_of(self.derives@),
        }
    }
}

impl SettingsView {
    /// The settings that leave every axis open.
    pub open spec fn empty() -> SettingsView {
        SettingsView {
            pattern: None,
            setter_skip: None,
            setter_name: None,
            setter_prefix: None,
            setter_into: None,
            visibility: None,
            try_setter: None,
            default: None,
            build_skip: None,
            build_name: None,
            validate: None,
            derives: Seq::empty(),
        }
    }

    /// These settings after one more directive: the directive replaces
    /// what was said on its axis, and a `derive` name joins the list.
    pub open spec fn with(self, d: DirectiveView) -> SettingsView {
        match d {
            DirectiveView::Pattern(p) => SettingsView { pattern: Some(p), ..self },
            DirectiveView::SetterSkip(b) => SettingsView { setter_skip: Some(b), ..self },
            DirectiveView::SetterName(t) => SettingsView { setter_name: Some(t), ..self },
            DirectiveView::SetterPrefix(t) => SettingsView { setter_prefix: Some(t), ..self },
            DirectiveView::SetterInto(b) => SettingsView { setter_into: Some(b), ..self },
            DirectiveView::SetterVisibility(v) => SettingsView { visibility: Some(v), ..self },
            DirectiveView::TrySetter(b) => SettingsView { try_setter: Some(b), ..self },
            DirectiveView::Default(r) => SettingsView { default: Some(r), ..self },
            DirectiveView::BuildFnSkip(b) => SettingsView { build_skip: Some(b), ..self },
            DirectiveView::BuildFnName(t) => SettingsView { build_name: Some(t), ..self },
            DirectiveView::BuildFnValidate(t) => SettingsView { validate: Some(t), ..self },
            DirectiveView::Derive(t) => SettingsView { derives: self.derives.push(t), ..self },
        }
    }
}

/// What a list of directives says, taken in order.
pub open spec fn settings_of(ds: Seq<DirectiveView>) -> SettingsView
    decreases ds.len(),
{
    if ds.len() == 0 {
        SettingsView::empty()
    } else {
        settings_of(ds.drop_last()).with(ds.last())
    }
}

impl Settings {
    /// The settings that leave every axis open.
    pub fn new() -> (r: Settings)
        ensures
            r@ == SettingsView::empty(),
    {
        proof {
            views_of_empty::<String>();
        }
        Settings {
            pattern: None,
            setter_skip: None,
            setter_name: None,
            setter_prefix: None,
            setter_into: None,
            visibility: None,
            try_setter: None,
            default: None,
            build_skip: None,
            build_name: None,
            validate: None,
            derives: Vec::new(),
        }
    }

    /// Takes one more directive into these settings.
    pub fn apply(&mut self, d: &Directive)
        ensures
            final(self)@ == old(self)@.with(d@),
    {
        match d {
            Directive::Pattern(p) => {
                self.pattern = Some(*p);
            },
            Directive::SetterSkip(b) => {
                self.setter_skip = Some(*b);
            },
            Directive::SetterName(t) => {
                self.setter_name = Some(t.clone());
            },
            Directive::SetterPrefix(t) => {
                self.setter_prefix = Some(t.clone());
            },
            Directive::SetterInto(b) => {
                self.setter_into = Some(*b);
            },
            Directive::SetterVisibility(v) => {
                self.visibility = Some(*v);
            },
            Directive::TrySetter(b) => {
                self.try_setter = Some(*b);
            },
            Directive::Default(r) => {
                self.default = Some(r.copy());
            },
            Directive::BuildFnSkip(b) => {
                self.build_skip = Some(*b);
            },
            Directive::BuildFnName(t) => {
                self.build_name = Some(t.clone());
            },
            Directive::BuildFnValidate(t) => {
                self.validate = Some(t.clone());
            },
            Directive::Derive(t) => {
                let name = t.clone();
                proof {
                    views_of_push(self.derives@, name);
                }
                self.derives.push(name);
            },
        }
    }

    /// Collects a list of directives, taken in order.
    pub fn from_directives(ds: &Vec<Directive>) -> (r: Settings)
        ensures
            r@ == settings_of(views_of(ds@)),
    {
        let mut out = Settings::new();
        let mut i: usize = 0;
        proof {
            assert(views_of(ds@).take(0) =~= Seq::empty());
        }
        while i < ds.len()
            invariant
                i <= ds.len(),
                out@ == settings_of(views_of(ds@).take(i as int)),
            decreases ds.len() - i,
        {
            proof {
                let all = views_of(ds@);
                assert(all.take(i + 1).drop_last() =~= all.take(i as int));
                assert(all.take(i + 1).last() == ds@[i as int]@);
            }
            out.apply(&ds[i]);
            i = i + 1;
        }
        proof {
            assert(views_of(ds@).take(i as int) =~= views_of(ds@));
        }
        out
    }
}

/// The fully resolved configuration of one field.
#[derive(Clone, Debug, PartialEq, Eq)]
pub struct EffectiveFieldConfig {
    /// The name of the field.
    pub field: String,
    /// The pattern of the field's setters.
    pub pattern: Pattern,
    /// Whether the field gets a setter.
    pub setter_enabled: bool,
    /// The name of the field's setter.
    pub setter_name: String,
    /// Whether the setter takes any value that converts into the field's
    /// type.
    pub setter_into: bool,
    pub visibility: Visibility,
    /// Whether the field gets a fallible setter beside the plain one.
    pub try_setter: bool,
    /// Where the field's value comes from when its slot was never set.
    pub default: DefaultRule,
}

/// Model of an [`EffectiveFieldConfig`].
pub struct EffectiveFieldConfigView {
    pub field: Seq<char>,
    pub pattern: Pattern,
    pub setter_enabled: bool,
    pub setter_name: Seq<char>,
    pub setter_into: bool,
    pub visibility: Visibility,
    pub try_setter: bool,
    pub default: DefaultRuleView,
}

impl View for EffectiveFieldConfig {
    type V = EffectiveFieldConfigView;

    open spec fn view(&self) -> EffectiveFieldConfigView {
        EffectiveFieldConfigView {
            field: self.field@,
            pattern: self.pattern,
            setter_enabled: self.setter_enabled,
            setter_name: self.setter_name@,
            setter_into: self.setter_into,
            visibility: self.visibility,
            try_setter: self.try_setter,
            default: self.default@,
        }
    }
}

/// The fully resolved configuration of the build operation of a record.
#[derive(Clone, Debug, PartialEq, Eq)]
pub struct EffectiveBuildConfig {
    /// The pattern of the record, which fixes how the build operation takes
    /// the builder.
    pub pattern: Pattern,
    /// Whether a build operation is synthesized at all.
    pub enabled: bool,
    /// The name of the build operation.
    pub name: String,
    /// The function that checks the builder before the record is assembled.
    pub validate: Option<String>,
}

/// Model of an [`EffectiveBuildConfig`].
pub struct EffectiveBuildConfigView {
    pub pattern: Pattern,
    pub enabled: bool,
    pub name: Seq<char>,
    pub validate: Option<Seq<char>>,
}

impl View for EffectiveBuildConfig {
    type V = EffectiveBuildConfigView;

    open spec fn view(&self) -> EffectiveBuildConfigView {
        EffectiveBuildConfigView {
            pattern: self.pattern,
            enabled: self.enabled,
            name: self.name@,
            validate: opt_text(self.validate),
        }
    }
}

/// What holds on one axis: the field's word, else the record's word, else
/// the fixed value.
pub open spec fn prefer<T>(field: Option<T>, record: Option<T>, fixed: T) -> T {
    match field {
        Some(x) => x,
        None => match record {
            Some(x) => x,
            None => fixed,
        },
    }
}

/// The name of the setter of the field `name`: the name that the field
/// gives it; else the field's prefix, or else the record's, joined to the
/// field's name by an underscore; else the field's name.
pub open spec fn setter_name_of(record: SettingsView, field: SettingsView, name: Seq<char>) -> Seq<
    char,
> {
    match field.setter_name {
        Some(n) => n,
        None => match field.setter_prefix {
            Some(p) => joined(p, name),
            None => match record.setter_prefix {
                Some(p) => joined(p, name),
                None => name,
            },
        },
    }
}

/// The configuration of the field `name` that the settings of the record
/// and of the field give together.
pub open spec fn effective_field(record: SettingsView, field: SettingsView, name: Seq<char>)
    -> EffectiveFieldConfigView {
    EffectiveFieldConfigView {
        field: name,
        pattern: prefer(field.pattern, record.pattern, Pattern::Mutable),
        setter_enabled: !prefer(field.setter_skip, record.setter_skip, false),
        setter_name: setter_name_of(record, field, name),
        setter_into: prefer(field.setter_into, record.setter_into, false),
        visibility: prefer(field.visibility, record.visibility, Visibility::Public),
        try_setter: prefer(field.try_setter, None, false),
        default: prefer(field.default, record.default, DefaultRuleView::Required),
    }
}

/// Whether a field could ever get a value: through a setter, or through a
/// default.
pub open spec fn obtainable(c: EffectiveFieldConfigView) -> bool {
    c.setter_enabled || !(c.default is Required)
}

/// The field has a fallible setter that consumes the builder: where its
/// conversion fails, the builder is lost. The engine accepts such a field;
/// this tells the caller.
pub open spec fn try_setter_hazard(c: EffectiveFieldConfigView) -> bool {
    c.setter_enabled && c.try_setter && c.pattern == Pattern::Owned
}

impl EffectiveFieldConfig {
    /// Decides whether the field has a fallible setter that consumes the
    /// builder.
    pub fn has_try_setter_hazard(&self) -> (r: bool)
        ensures
            r == try_setter_hazard(self@),
    {
        let owned = match self.pattern {
            Pattern::Owned => true,
            _ => false,
        };
        self.setter_enabled && self.try_setter && owned
    }
}

/// The error that reports a field with neither a setter nor a default.
pub open spec fn unobtainable_refusal() -> ConfigurationErrorView {
    ConfigurationErrorView {
        fault: ConfigurationFault::SkippedWithoutDefault,
        key: "setter.skip"@,
        scope: Scope::Field,
    }
}

/// The resolution of the field `name`: its effective configuration, or
/// the refusal of a field that could never get a value.
pub open spec fn field_resolution(record: SettingsView, field: SettingsView, name: Seq<char>)
    -> Result<EffectiveFieldConfigView, ConfigurationErrorView> {
    let c = effective_field(record, field, name);
    if obtainable(c) {
        Ok(c)
    } else {
        Err(unobtainable_refusal())
    }
}

/// The configuration of the build operation that the settings of the
/// record give.
pub open spec fn effective_build(record: SettingsView) -> EffectiveBuildConfigView {
    EffectiveBuildConfigView {
        pattern: prefer(record.pattern, None, Pattern::Mutable),
        enabled: !prefer(record.build_skip, None, false),
        name: prefer(record.build_name, None, "build"@),
        validate: record.validate,
    }
}

/// Executable form of [`prefer`] for values that are copied.
fn prefer_value<T: Copy>(field: Option<T>, record: Option<T>, fixed: T) -> (r: T)
    ensures
        r == prefer(field, record, fixed),
{
    match field {
        Some(x) => x,
        None => match record {
            Some(x) => x,
            None => fixed,
        },
    }
}

/// Executable form of [`setter_name_of`].
fn resolve_setter_name(record: &Settings, field: &Settings, name: &str) -> (r: String)
    ensures
        r@ == setter_name_of(record@, field@, name@),
{
    match &field.setter_name {
        Some(n) => n.clone(),
        None => match &field.setter_prefix {
            Some(p) => join_with_underscore(p.as_str(), name),
            None => match &record.setter_prefix {
                Some(p) => join_with_underscore(p.as_str(), name),
                None => String::from_str(name),
            },
        },
    }
}

/// Executable form of [`prefer`] for default rules.
fn resolve_default(record: &Settings, field: &Settings) -> (r: DefaultRule)
    ensures
        r@ == prefer(field@.default, record@.default, DefaultRuleView::Required),
{
    match &field.default {
        Some(d) => d.copy(),
        None => match &record.default {
            Some(d) => d.copy(),
            None => DefaultRule::Required,
        },
    }
}

/// Resolves the configuration of the field `name` from the settings of
/// the record and of the field.
///
/// On every axis the field's word wins over the record's. The field is
/// refused where it ends with neither a setter nor a default.
pub fn resolve_field(record: &Settings, field: &Settings, name: &str) -> (r: Result<
    EffectiveFieldConfig,
    ConfigurationError,
>)
    ensures
        match r {
            Ok(c) => field_resolution(record@, field@, name@) == Ok::<
                EffectiveFieldConfigView,
                ConfigurationErrorView,
            >(c@),
            Err(e) => field_resolution(record@, field@, name@) == Err::<
                EffectiveFieldConfigView,
                ConfigurationErrorView,
            >(e@),
        },
{
    let config = EffectiveFieldConfig {
        field: String::from_str(name),
        pattern: prefer_value(field.pattern, record.pattern, Pattern::Mutable),
        setter_enabled: !prefer_value(field.setter_skip, record.setter_skip, false),
        setter_name: resolve_setter_name(record, field, name),
        setter_into: prefer_value(field.setter_into, record.setter_into, false),
        visibility: prefer_value(field.visibility, record.visibility, Visibility::Public),
        try_setter: prefer_value(field.try_setter, None, false),
        default: resolve_default(record, field),
    };
    let required = match &config.default {
        DefaultRule::Required => true,
        _ => false,
    };
    if config.setter_enabled || !required {
        Ok(config)
    } else {
        Err(
            ConfigurationError {
                fault: ConfigurationFault::SkippedWithoutDefault,
                key: String::from_str("setter.skip"),
                scope: Scope::Field,
            },
        )
    }
}

/// Resolves the configuration of the build operation from the settings of
/// the record.
pub fn resolve_build(record: &Settings) -> (r: EffectiveBuildConfig)
    ensures
        r@ == effective_build(record@),
{
    let name = match &record.build_name {
        Some(n) => n.clone(),
        None => String::from_str("build"),
    };
    EffectiveBuildConfig {
        pattern: prefer_value(record.pattern, None, Pattern::Mutable),
        enabled: !prefer_value(record.build_skip, None, false),
        name,
        validate: copy_opt_text(&record.validate),
    }
}

/// Resolves the directives of a record and of its field `name` into the
/// effective configuration of the field and of the build operation.
pub fn resolve(record: &Vec<Directive>, field: &Vec<Directive>, name: &str) -> (r: Result<
    (EffectiveFieldConfig, EffectiveBuildConfig),
    ConfigurationError,
>)
    ensures
        match r {
            Ok((c, b)) => {
                &&& field_resolution(
                    settings_of(views_of(record@)),
                    settings_of(views_of(field@)),
                    name@,
                ) == Ok::<EffectiveFieldConfigView, ConfigurationErrorView>(c@)
                &&& b@ == effective_build(settings_of(views_of(record@)))
            },
            Err(e) => field_resolution(
                settings_of(views_of(record@)),
                settings_of(views_of(field@)),
                name@,
            ) == Err::<EffectiveFieldConfigView, ConfigurationErrorView>(e@),
        },
{
    let record_settings = Settings::from_directives(record);
    let field_settings = Settings::from_directives(field);
    match resolve_field(&record_settings, &field_settings, name) {
        Ok(c) => Ok((c, resolve_build(&record_settings))),
        Err(e) => Err(e),
    }
}

} // verus!
