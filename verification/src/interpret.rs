//! From the entries of a directive text to typed directives.
//!
//! Every key has a place where it may stand (on the record, on a field, or
//! on both) and a domain for its value. An entry with a key that may not
//! stand where it stands, or with a value outside the key's domain, is
//! refused with the key and the place.

use vstd::prelude::*;
use vstd::string::*;
use crate::directive::{
    ConfigurationError, ConfigurationErrorView, ConfigurationFault, DefaultRule, DefaultRuleView,
    Directive, DirectiveView, Pattern, Scope, Visibility,
};
use crate::grammar::{entries_of, opt_literal, parse_entries, Entry, EntryView, Literal, LiteralView};
use crate::text::{
    identifier_text, is_identifier, opt_text, same_text, views_of, views_of_empty, views_of_push,
};

verus! {

/// The truth value that an entry gives: `true` without a value, else what
/// a bare or quoted `true` or `false` says.
pub open spec fn flag_of(value: Option<LiteralView>) -> Option<bool> {
    match value {
        None => Some(true),
        Some(LiteralView::Flag(b)) => Some(b),
        Some(LiteralView::Text(t)) => if t == "true"@ {
            Some(true)
        } else if t == "false"@ {
            Some(false)
        } else {
            None
        },
    }
}

/// The quoted text that an entry gives.
pub open spec fn text_of(value: Option<LiteralView>) -> Option<Seq<char>> {
    match value {
        Some(LiteralView::Text(t)) => Some(t),
        _ => None,
    }
}

/// The identifier that an entry gives: a quoted text that is an
/// identifier.
pub open spec fn name_of(value: Option<LiteralView>) -> Option<Seq<char>> {
    match value {
        Some(LiteralView::Text(t)) => if is_identifier(t) {
            Some(t)
        } else {
            None
        },
        _ => None,
    }
}

/// The pattern that an entry gives: a quoted `owned`, `mutable` or
/// `immutable`.
pub open spec fn pattern_of(value: Option<LiteralView>) -> Option<Pattern> {
    match value {
        Some(LiteralView::Text(t)) => if t == "owned"@ {
            Some(Pattern::Owned)
        } else if t == "mutable"@ {
            Some(Pattern::Mutable)
        } else if t == "immutable"@ {
            Some(Pattern::Immutable)
        } else {
            None
        },
        _ => None,
    }
}

/// The name under which an entry is reported: its key, and behind a dot
/// its sub-key where it has one.
pub open spec fn dotted(key: Seq<char>, sub: Option<Seq<char>>) -> Seq<char> {
    match sub {
        None => key,
        Some(s) => key + seq!['.'] + s,
    }
}

/// The directive that a truth value gives through `make`, or the fault of
/// a value that is no truth value.
pub open spec fn flag_directive(
    value: Option<LiteralView>,
    make: spec_fn(bool) -> DirectiveView,
) -> Result<DirectiveView, ConfigurationFault> {
    match flag_of(value) {
        Some(b) => Ok(make(b)),
        None => Err(ConfigurationFault::MalformedValue),
    }
}

/// The directive that an identifier gives through `make`, or the fault of
/// a value that is no identifier.
pub open spec fn name_directive(
    value: Option<LiteralView>,
    make: spec_fn(Seq<char>) -> DirectiveView,
) -> Result<DirectiveView, ConfigurationFault> {
    match name_of(value) {
        Some(t) => Ok(make(t)),
        None => Err(ConfigurationFault::MalformedValue),
    }
}

/// The directive that a key without a value gives, or the fault of a key
/// that came with one.
pub open spec fn bare_directive(value: Option<LiteralView>, d: DirectiveView) -> Result<
    DirectiveView,
    ConfigurationFault,
> {
    if value is None {
        Ok(d)
    } else {
        Err(ConfigurationFault::MalformedValue)
    }
}

/// What a plain entry (one without a sub-key) means at `scope`.
pub open spec fn plain_meaning(key: Seq<char>, value: Option<LiteralView>, scope: Scope) -> Result<
    DirectiveView,
    ConfigurationFault,
> {
    if key == "pattern"@ {
        match pattern_of(value) {
            Some(p) => Ok(DirectiveView::Pattern(p)),
            None => Err(ConfigurationFault::MalformedValue),
        }
    } else if key == "setter"@ {
        bare_directive(value, DirectiveView::SetterSkip(false))
    } else if key == "public"@ {
        bare_directive(value, DirectiveView::SetterVisibility(Visibility::Public))
    } else if key == "private"@ {
        bare_directive(value, DirectiveView::SetterVisibility(Visibility::Private))
    } else if key == "default"@ {
        match value {
            None => Ok(DirectiveView::Default(DefaultRuleView::TypeDefault)),
            Some(LiteralView::Text(t)) => Ok(
                DirectiveView::Default(DefaultRuleView::Expression(t)),
            ),
            Some(LiteralView::Flag(_)) => Err(ConfigurationFault::MalformedValue),
        }
    } else if key == "try_setter"@ && scope == Scope::Field {
        flag_directive(value, |b: bool| DirectiveView::TrySetter(b))
    } else if (key == "build_fn"@ || key == "derive"@) && scope == Scope::Record {
        Err(ConfigurationFault::MalformedValue)
    } else {
        Err(ConfigurationFault::UnknownKey)
    }
}

/// What the member `sub` of the list of `key(..)` means at `scope`.
pub open spec fn member_meaning(
    key: Seq<char>,
    sub: Seq<char>,
    value: Option<LiteralView>,
    scope: Scope,
) -> Result<DirectiveView, ConfigurationFault> {
    if key == "setter"@ {
        if sub == "skip"@ {
            flag_directive(value, |b: bool| DirectiveView::SetterSkip(b))
        } else if sub == "into"@ {
            flag_directive(value, |b: bool| DirectiveView::SetterInto(b))
        } else if sub == "prefix"@ {
            name_directive(value, |t: Seq<char>| DirectiveView::SetterPrefix(t))
        } else if sub == "name"@ && scope == Scope::Field {
            name_directive(value, |t: Seq<char>| DirectiveView::SetterName(t))
        } else {
            Err(ConfigurationFault::UnknownKey)
        }
    } else if key == "build_fn"@ && scope == Scope::Record {
        if sub == "skip"@ {
            flag_directive(value, |b: bool| DirectiveView::BuildFnSkip(b))
        } else if sub == "name"@ {
            name_directive(value, |t: Seq<char>| DirectiveView::BuildFnName(t))
        } else if sub == "validate"@ {
            match text_of(value) {
                Some(t) => Ok(DirectiveView::BuildFnValidate(t)),
                None => Err(ConfigurationFault::MalformedValue),
            }
        } else {
            Err(ConfigurationFault::UnknownKey)
        }
    } else if key == "derive"@ && scope == Scope::Record {
        bare_directive(value, DirectiveView::Derive(sub))
    } else {
        Err(ConfigurationFault::UnknownKey)
    }
}

/// What an entry means at `scope`: its directive, or what is wrong with
/// it.
pub open spec fn meaning(e: EntryView, scope: Scope) -> Result<DirectiveView, ConfigurationFault> {
    match e.sub {
        None => plain_meaning(e.key, e.value, scope),
        Some(sub) => member_meaning(e.key, sub, e.value, scope),
    }
}

/// The error that reports the fault `f` of the entry `e` at `scope`.
pub open spec fn refusal(e: EntryView, f: ConfigurationFault, scope: Scope)
    -> ConfigurationErrorView {
    ConfigurationErrorView { fault: f, key: dotted(e.key, e.sub), scope }
}

/// What an entry is read as: its directive, or the error that reports it.
pub open spec fn reading(e: EntryView, scope: Scope) -> Result<
    DirectiveView,
    ConfigurationErrorView,
> {
    match meaning(e, scope) {
        Ok(d) => Ok(d),
        Err(f) => Err(refusal(e, f, scope)),
    }
}

/// What a list of entries is read as: the directives of all entries in
/// order, or the error of the first entry that is refused.
pub open spec fn readings(es: Seq<EntryView>, scope: Scope) -> Result<
    Seq<DirectiveView>,
    ConfigurationErrorView,
>
    decreases es.len(),
{
    if es.len() == 0 {
        Ok(Seq::empty())
    } else {
        match readings(es.drop_last(), scope) {
            Err(e) => Err(e),
            Ok(ds) => match reading(es.last(), scope) {
                Ok(d) => Ok(ds.push(d)),
                Err(e) => Err(e),
            },
        }
    }
}

/// The error that reports a text that does not follow the grammar.
pub open spec fn syntax_refusal(at: int, scope: Scope) -> ConfigurationErrorView {
    ConfigurationErrorView {
        fault: ConfigurationFault::Syntax { at: at as usize },
        key: Seq::empty(),
        scope,
    }
}

/// What a directive text attached at `scope` is read as.
pub open spec fn directives_of(s: Seq<char>, scope: Scope) -> Result<
    Seq<DirectiveView>,
    ConfigurationErrorView,
> {
    match entries_of(s) {
        Err(p) => Err(syntax_refusal(p, scope)),
        Ok(es) => readings(es, scope),
    }
}

/// Executable form of [`flag_of`].
fn flag_value(value: &Option<Literal>) -> (r: Option<bool>)
    ensures
        r == flag_of(opt_literal(*value)),
{
    match value {
        None => Some(true),
        Some(Literal::Flag(b)) => Some(*b),
        Some(Literal::Text(t)) => {
            if same_text(t.as_str(), "true") {
                Some(true)
            } else if same_text(t.as_str(), "false") {
                Some(false)
            } else {
                None
            }
        },
    }
}

/// Executable form of [`text_of`].
fn text_value(value: &Option<Literal>) -> (r: Option<String>)
    ensures
        opt_text(r) == text_of(opt_literal(*value)),
{
    match value {
        Some(Literal::Text(t)) => Some(t.clone()),
        _ => None,
    }
}

/// Executable form of [`name_of`].
fn name_value(value: &Option<Literal>) -> (r: Option<String>)
    ensures
        opt_text(r) == name_of(opt_literal(*value)),
{
    match value {
        Some(Literal::Text(t)) => {
            if identifier_text(t.as_str()) {
                Some(t.clone())
            } else {
                None
            }
        },
        _ => None,
    }
}

/// Executable form of [`pattern_of`].
fn pattern_value(value: &Option<Literal>) -> (r: Option<Pattern>)
    ensures
        r == pattern_of(opt_literal(*value)),
{
    match value {
        Some(Literal::Text(t)) => {
            if same_text(t.as_str(), "owned") {
                Some(Pattern::Owned)
            } else if same_text(t.as_str(), "mutable") {
                Some(Pattern::Mutable)
            } else if same_text(t.as_str(), "immutable") {
                Some(Pattern::Immutable)
            } else {
                None
            }
        },
        _ => None,
    }
}

/// Executable form of [`dotted`].
fn dotted_key(key: &String, sub: &Option<String>) -> (r: String)
    ensures
        r@ == dotted(key@, opt_text(*sub)),
{
    match sub {
        None => key.clone(),
        Some(s) => {
            let mut out = key.clone();
            proof {
                reveal_strlit(".");
            }
            out.append(".");
            out.append(s.as_str());
            assert("."@ =~= seq!['.']);
            out
        },
    }
}

/// Executable form of [`plain_meaning`].
fn read_plain(key: &String, value: &Option<Literal>, scope: Scope) -> (r: Result<
    Directive,
    ConfigurationFault,
>)
    ensures
        match r {
            Ok(d) => plain_meaning(key@, opt_literal(*value), scope) == Ok::<
                DirectiveView,
                ConfigurationFault,
            >(d@),
            Err(f) => plain_meaning(key@, opt_literal(*value), scope) == Err::<
                DirectiveView,
                ConfigurationFault,
            >(f),
        },
{
    let k = key.as_str();
    let on_field = match scope {
        Scope::Field => true,
        Scope::Record => false,
    };
    if same_text(k, "pattern") {
        match pattern_value(value) {
            Some(p) => Ok(Directive::Pattern(p)),
            None => Err(ConfigurationFault::MalformedValue),
        }
    } else if same_text(k, "setter") {
        if value.is_none() {
            Ok(Directive::SetterSkip(false))
        } else {
            Err(ConfigurationFault::MalformedValue)
        }
    } else if same_text(k, "public") {
        if value.is_none() {
            Ok(Directive::SetterVisibility(Visibility::Public))
        } else {
            Err(ConfigurationFault::MalformedValue)
        }
    } else if same_text(k, "private") {
        if value.is_none() {
            Ok(Directive::SetterVisibility(Visibility::Private))
        } else {
            Err(ConfigurationFault::MalformedValue)
        }
    } else if same_text(k, "default") {
        match value {
            None => Ok(Directive::Default(DefaultRule::TypeDefault)),
            Some(Literal::Text(t)) => Ok(Directive::Default(DefaultRule::Expression(t.clone()))),
            Some(Literal::Flag(_)) => Err(ConfigurationFault::MalformedValue),
        }
    } else if same_text(k, "try_setter") && on_field {
        match flag_value(value) {
            Some(b) => Ok(Directive::TrySetter(b)),
            None => Err(ConfigurationFault::MalformedValue),
        }
    } else if (same_text(k, "build_fn") || same_text(k, "derive")) && !on_field {
        Err(ConfigurationFault::MalformedValue)
    } else {
        Err(ConfigurationFault::UnknownKey)
    }
}

/// Executable form of [`member_meaning`].
fn read_member(key: &String, sub: &String, value: &Option<Literal>, scope: Scope) -> (r: Result<
    Directive,
    ConfigurationFault,
>)
    ensures
        match r {
            Ok(d) => member_meaning(key@, sub@, opt_literal(*value), scope) == Ok::<
                DirectiveView,
                ConfigurationFault,
            >(d@),
            Err(f) => member_meaning(key@, sub@, opt_literal(*value), scope) == Err::<
                DirectiveView,
                ConfigurationFault,
            >(f),
        },
{
    let k = key.as_str();
    let s = sub.as_str();
    let on_field = match scope {
        Scope::Field => true,
        Scope::Record => false,
    };
    if same_text(k, "setter") {
        if same_text(s, "skip") {
            match flag_value(value) {
                Some(b) => Ok(Directive::SetterSkip(b)),
                None => Err(ConfigurationFault::MalformedValue),
            }
        } else if same_text(s, "into") {
            match flag_value(value) {
                Some(b) => Ok(Directive::SetterInto(b)),
                None => Err(ConfigurationFault::MalformedValue),
            }
        } else if same_text(s, "prefix") {
            match name_value(value) {
                Some(t) => Ok(Directive::SetterPrefix(t)),
                None => Err(ConfigurationFault::MalformedValue),
            }
        } else if same_text(s, "name") && on_field {
            match name_value(value) {
                Some(t) => Ok(Directive::SetterName(t)),
                None => Err(ConfigurationFault::MalformedValue),
            }
        } else {
            Err(ConfigurationFault::UnknownKey)
        }
    } else if same_text(k, "build_fn") && !on_field {
        if same_text(s, "skip") {
            match flag_value(value) {
                Some(b) => Ok(Directive::BuildFnSkip(b)),
                None => Err(ConfigurationFault::MalformedValue),
            }
        } else if same_text(s, "name") {
            match name_value(value) {
                Some(t) => Ok(Directive::BuildFnName(t)),
                None => Err(ConfigurationFault::MalformedValue),
            }
        } else if same_text(s, "validate") {
            match text_value(value) {
                Some(t) => Ok(Directive::BuildFnValidate(t)),
                None => Err(ConfigurationFault::MalformedValue),
            }
        } else {
            Err(ConfigurationFault::UnknownKey)
        }
    } else if same_text(k, "derive") && !on_field {
        if value.is_none() {
            Ok(Directive::Derive(sub.clone()))
        } else {
            Err(ConfigurationFault::MalformedValue)
        }
    } else {
        Err(ConfigurationFault::UnknownKey)
    }
}

/// Reads one entry that stands at `scope` as a directive.
///
/// The entry is refused, with its key and `scope`, where the key is none
/// that may stand at `scope` or the value lies outside the key's domain.
pub fn interpret(entry: &Entry, scope: Scope) -> (r: Result<Directive, ConfigurationError>)
    ensures
        match r {
            Ok(d) => reading(entry@, scope) == Ok::<DirectiveView, ConfigurationErrorView>(d@),
            Err(e) => reading(entry@, scope) == Err::<DirectiveView, ConfigurationErrorView>(e@),
        },
{
    let read = match &entry.sub {
        None => read_plain(&entry.key, &entry.value, scope),
        Some(sub) => read_member(&entry.key, sub, &entry.value, scope),
    };
    match read {
        Ok(d) => Ok(d),
        Err(f) => Err(
            ConfigurationError { fault: f, key: dotted_key(&entry.key, &entry.sub), scope },
        ),
    }
}

/// Reads the entries that stand at `scope` as directives, in order, and
/// stops at the first entry that is refused.
pub fn interpret_all(entries: &Vec<Entry>, scope: Scope) -> (r: Result<
    Vec<Directive>,
    ConfigurationError,
>)
    ensures
        match r {
            Ok(ds) => readings(views_of(entries@), scope) == Ok::<
                Seq<DirectiveView>,
                ConfigurationErrorView,
            >(views_of(ds@)),
            Err(e) => readings(views_of(entries@), scope) == Err::<
                Seq<DirectiveView>,
                ConfigurationErrorView,
            >(e@),
        },
{
    let mut out: Vec<Directive> = Vec::new();
    let mut i: usize = 0;
    proof {
        views_of_empty::<Directive>();
        assert(views_of(entries@).take(0) =~= Seq::empty());
    }
    while i < entries.len()
        invariant
            i <= entries.len(),
            readings(views_of(entries@).take(i as int), scope) == Ok::<
                Seq<DirectiveView>,
                ConfigurationErrorView,
            >(views_of(out@)),
        decreases entries.len() - i,
    {
        let ghost es = views_of(entries@);
        proof {
            assert(es.take(i + 1).drop_last() =~= es.take(i as int));
            assert(es.take(i + 1).last() == entries@[i as int]@);
        }
        match interpret(&entries[i], scope) {
            Err(e) => {
                proof {
                    lemma_refusal_stays(es, i + 1, scope);
                }
                return Err(e);
            },
            Ok(d) => {
                proof {
                    views_of_push(out@, d);
                }
                out.push(d);
            },
        }
        i = i + 1;
    }
    proof {
        assert(views_of(entries@).take(i as int) =~= views_of(entries@));
    }
    Ok(out)
}

/// Once a front part of a list of entries is refused, the whole list is
/// refused with the same error.
pub proof fn lemma_refusal_stays(es: Seq<EntryView>, k: int, scope: Scope)
    requires
        0 <= k <= es.len(),
        readings(es.take(k), scope) is Err,
    ensures
        readings(es, scope) == readings(es.take(k), scope),
    decreases es.len() - k,
{
    if k < es.len() {
        assert(es.take(k + 1).drop_last() =~= es.take(k));
        lemma_refusal_stays(es, k + 1, scope);
    } else {
        assert(es.take(k) =~= es);
    }
}

/// Reads a directive text attached at `scope` into its directives.
///
/// The directives come in the order of the text. The text is refused
/// where it does not follow the grammar, and else with the first entry
/// that is refused.
pub fn parse_directives(text: &str, scope: Scope) -> (r: Result<
    Vec<Directive>,
    ConfigurationError,
>)
    ensures
        match r {
            Ok(ds) => directives_of(text@, scope) == Ok::<
                Seq<DirectiveView>,
                ConfigurationErrorView,
            >(views_of(ds@)),
            Err(e) => directives_of(text@, scope) == Err::<
                Seq<DirectiveView>,
                ConfigurationErrorView,
            >(e@),
        },
{
    match parse_entries(text) {
        Err(p) => Err(
            ConfigurationError {
                fault: ConfigurationFault::Syntax { at: p },
                key: String::new(),
                scope,
            },
        ),
        Ok(entries) => interpret_all(&entries, scope),
    }
}

} // verus!
