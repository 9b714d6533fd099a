//! Character classes and small text utilities shared by the other modules.
//!
//! Text is modelled as `Seq<char>`: the view of `str` and `String`.

use vstd::prelude::*;
use vstd::string::*;

verus! {

/// Blank characters that may separate the tokens of a directive.
pub open spec fn is_space(c: char) -> bool {
    c == ' ' || c == '\t' || c == '\n' || c == '\r'
}

/// Characters that may start an identifier: ASCII letters, the underscore
/// and every character outside ASCII.
pub open spec fn is_ident_start(c: char) -> bool {
    ('a' <= c && c <= 'z') || ('A' <= c && c <= 'Z') || c == '_' || c > '\x7f'
}

/// Characters that may continue an identifier: those that may start one,
/// and the ASCII digits.
pub open spec fn is_ident_continue(c: char) -> bool {
    is_ident_start(c) || ('0' <= c && c <= '9')
}

/// An identifier is a non-empty run of identifier characters that does not
/// start with a digit.
pub open spec fn is_identifier(s: Seq<char>) -> bool {
    &&& s.len() > 0
    &&& is_ident_start(s[0])
    &&& forall|i: int| 0 < i < s.len() ==> is_ident_continue(#[trigger] s[i])
}

/// Executable form of [`is_space`].
pub fn space_char(c: char) -> (b: bool)
    ensures
        b == is_space(c),
{
    c == ' ' || c == '\t' || c == '\n' || c == '\r'
}

/// Executable form of [`is_ident_start`].
pub fn ident_start_char(c: char) -> (b: bool)
    ensures
        b == is_ident_start(c),
{
    ('a' <= c && c <= 'z') || ('A' <= c && c <= 'Z') || c == '_' || c > '\x7f'
}

/// Executable form of [`is_ident_continue`].
pub fn ident_continue_char(c: char) -> (b: bool)
    ensures
        b == is_ident_continue(c),
{
    ident_start_char(c) || ('0' <= c && c <= '9')
}

/// Decides whether two texts hold the same characters.
pub fn same_text(a: &str, b: &str) -> (r: bool)
    ensures
        r == (a@ == b@),
{
    let n: usize = a.unicode_len();
    if n != b.unicode_len() {
        return false;
    }
    let mut i: usize = 0;
    while i < n
        invariant
            n == a@.len(),
            n == b@.len(),
            i <= n,
            forall|j: int| 0 <= j < i ==> a@[j] == b@[j],
        decreases n - i,
    {
        if a.get_char(i) != b.get_char(i) {
            return false;
        }
        i = i + 1;
    }
    assert(a@ =~= b@);
    true
}

/// Decides whether a text is an identifier.
pub fn identifier_text(s: &str) -> (r: bool)
    ensures
        r == is_identifier(s@),
{
    let n: usize = s.unicode_len();
    if n == 0 {
        return false;
    }
    if !ident_start_char(s.get_char(0)) {
        return false;
    }
    let mut i: usize = 1;
    while i < n
        invariant
            n == s@.len(),
            1 <= i <= n,
            forall|j: int| 0 < j < i ==> is_ident_continue(#[trigger] s@[j]),
        decreases n - i,
    {
        if !ident_continue_char(s.get_char(i)) {
            return false;
        }
        i = i + 1;
    }
    true
}

/// Joins a prefix and a name with an underscore between them.
pub open spec fn joined(prefix: Seq<char>, name: Seq<char>) -> Seq<char> {
    prefix + seq!['_'] + name
}

/// Executable form of [`joined`].
pub fn join_with_underscore(prefix: &str, name: &str) -> (r: String)
    ensures
        r@ == joined(prefix@, name@),
{
    let mut out = String::from_str(prefix);
    proof {
        reveal_strlit("_");
    }
    out.append("_");
    out.append(name);
    assert("_"@ =~= seq!['_']);
    out
}

/// The views of the elements of a sequence, in order.
pub open spec fn views_of<T: View>(s: Seq<T>) -> Seq<T::V> {
    s.map_values(|x: T| x.view())
}

/// The view of an optional text.
pub open spec fn opt_text(o: Option<String>) -> Option<Seq<char>> {
    match o {
        Some(s) => Some(s@),
        None => None,
    }
}

/// Appending an element appends its view.
pub proof fn views_of_push<T: View>(s: Seq<T>, x: T)
    ensures
        views_of(s.push(x)) == views_of(s).push(x.view()),
{
    assert(views_of(s.push(x)) =~= views_of(s).push(x.view()));
}

/// The views of an empty sequence are an empty sequence.
pub proof fn views_of_empty<T: View>()
    ensures
        views_of(Seq::<T>::empty()) == Seq::<T::V>::empty(),
{
    assert(views_of(Seq::<T>::empty()) =~= Seq::<T::V>::empty());
}

/// An owned copy of an optional text.
pub fn copy_opt_text(o: &Option<String>) -> (r: Option<String>)
    ensures
        opt_text(r) == opt_text(*o),
{
    match o {
        Some(s) => Some(s.clone()),
        None => None,
    }
}

/// An owned copy of a list of texts.
pub fn copy_texts(v: &Vec<String>) -> (r: Vec<String>)
    ensures
        views_of(r@) == views_of(v@),
{
    let mut out: Vec<String> = Vec::new();
    let mut i: usize = 0;
    while i < v.len()
        invariant
            i <= v.len(),
            out@.len() == i,
            forall|j: int| 0 <= j < i ==> out@[j]@ == v@[j]@,
        decreases v.len() - i,
    {
        out.push(v[i].clone());
        i = i + 1;
    }
    assert(views_of(out@) =~= views_of(v@));
    out
}

} // verus!
