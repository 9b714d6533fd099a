//! The directive model: every configuration option that the engine
//! recognises, with the domain of its values.

use vstd::prelude::*;

verus! {

/// How the operations of a builder take and hand back the builder.
#[derive(Clone, Copy, Debug, PartialEq, Eq, Structural)]
pub enum Pattern {
    /// The builder is consumed and handed back by value.
    Owned,
    /// The builder is borrowed exclusively and the same borrow is handed back.
    Mutable,
    /// The builder is borrowed read-only and a fresh copy is handed back.
    Immutable,
}

/// Who may call a setter.
#[derive(Clone, Copy, Debug, PartialEq, Eq, Structural)]
pub enum Visibility {
    Public,
    Private,
}

/// Where a directive is attached.
#[derive(Clone, Copy, Debug, PartialEq, Eq, Structural)]
pub enum Scope {
    /// On the record as a whole.
    Record,
    /// On one field of the record.
    Field,
}

/// Where the value of a field comes from when its slot was never set.
#[derive(Clone, Debug, PartialEq, Eq)]
pub enum DefaultRule {
    /// From nowhere: the field is mandatory.
    Required,
    /// From the canonical empty value of the field's type.
    TypeDefault,
    /// From an expression that is evaluated when the record is built.
    Expression(String),
}

/// Model of a [`DefaultRule`].
pub enum DefaultRuleView {
    Required,
    TypeDefault,
    Expression(Seq<char>),
}

impl View for DefaultRule {
    type V = DefaultRuleView;

    open spec fn view(&self) -> DefaultRuleView {
        match self {
            DefaultRule::Required => DefaultRuleView::Required,
            DefaultRule::TypeDefault => DefaultRuleView::TypeDefault,
            DefaultRule::Expression(e) => DefaultRuleView::Expression(e@),
        }
    }
}

impl DefaultRule {
    /// An owned copy of this rule.
    pub fn copy(&self) -> (r: DefaultRule)
        ensures
            r@ == self@,
    {
        match self {
            DefaultRule::Required => DefaultRule::Required,
            DefaultRule::TypeDefault => DefaultRule::TypeDefault,
            DefaultRule::Expression(e) => DefaultRule::Expression(e.clone()),
        }
    }
}

/// One configuration instruction, attached to a record or to a field.
#[derive(Clone, Debug, PartialEq, Eq)]
pub enum Directive {
    /// `pattern = "owned" | "mutable" | "immutable"`.
    Pattern(Pattern),
    /// `setter(skip)`, `setter(skip = ..)`; a bare `setter` switches the
    /// setter back on.
    SetterSkip(bool),
    /// `setter(name = "..")`, on a field only.
    SetterName(String),
    /// `setter(prefix = "..")`.
    SetterPrefix(String),
    /// `setter(into)`, `setter(into = ..)`.
    SetterInto(bool),
    /// `public` or `private`.
    SetterVisibility(Visibility),
    /// `try_setter`, `try_setter = ..`, on a field only.
    TrySetter(bool),
    /// `default` or `default = ".."`.
    Default(DefaultRule),
    /// `build_fn(skip)`, `build_fn(skip = ..)`, on the record only.
    BuildFnSkip(bool),
    /// `build_fn(name = "..")`, on the record only.
    BuildFnName(String),
    /// `build_fn(validate = "..")`, on the record only.
    BuildFnValidate(String),
    /// One name of `derive(..)`, on the record only.
    Derive(String),
}

/// Model of a [`Directive`].
pub enum DirectiveView {
    Pattern(Pattern),
    SetterSkip(bool),
    SetterName(Seq<char>),
    SetterPrefix(Seq<char>),
    SetterInto(bool),
    SetterVisibility(Visibility),
    TrySetter(bool),
    Default(DefaultRuleView),
    BuildFnSkip(bool),
    BuildFnName(Seq<char>),
    BuildFnValidate(Seq<char>),
    Derive(Seq<char>),
}

impl View for Directive {
    type V = DirectiveView;

    open spec fn view(&self) -> DirectiveView {
        match self {
            Directive::Pattern(p) => DirectiveView::Pattern(*p),
            Directive::SetterSkip(b) => DirectiveView::SetterSkip(*b),
            Directive::SetterName(s) => DirectiveView::SetterName(s@),
            Directive::SetterPrefix(s) => DirectiveView::SetterPrefix(s@),
            Directive::SetterInto(b) => DirectiveView::SetterInto(*b),
            Directive::SetterVisibility(v) => DirectiveView::SetterVisibility(*v),
            Directive::TrySetter(b) => DirectiveView::TrySetter(*b),
            Directive::Default(d) => DirectiveView::Default(d@),
            Directive::BuildFnSkip(b) => DirectiveView::BuildFnSkip(*b),
            Directive::BuildFnName(s) => DirectiveView::BuildFnName(s@),
            Directive::BuildFnValidate(s) => DirectiveView::BuildFnValidate(s@),
            Directive::Derive(s) => DirectiveView::Derive(s@),
        }
    }
}

/// What is wrong with a configuration.
#[derive(Clone, Copy, Debug, PartialEq, Eq, Structural)]
pub enum ConfigurationFault {
    /// The directive text does not follow the grammar; `at` is the index of
    /// the character at which reading stopped.
    Syntax { at: usize },
    /// The key is not a directive that may stand at this place.
    UnknownKey,
    /// The key is known, but its value lies outside the key's domain.
    MalformedValue,
    /// The field has neither a setter nor a default, so nothing could ever
    /// give it a value.
    SkippedWithoutDefault,
}

/// A configuration that the engine refuses, with the offending key and the
/// place where it stands.
#[derive(Clone, Debug, PartialEq, Eq)]
pub struct ConfigurationError {
    pub fault: ConfigurationFault,
    /// The offending key; the parts of a nested key are joined by a dot.
    /// Empty for a syntax fault.
    pub key: String,
    pub scope: Scope,
}

/// Model of a [`ConfigurationError`].
pub struct ConfigurationErrorView {
    pub fault: ConfigurationFault,
    pub key: Seq<char>,
    pub scope: Scope,
}

impl View for ConfigurationError {
    type V = ConfigurationErrorView;

    open spec fn view(&self) -> ConfigurationErrorView {
        ConfigurationErrorView { fault: self.fault, key: self.key@, scope: self.scope }
    }
}

} // verus!
