//! The grammar of directive text.
//!
//! A directive text is a list of items separated by commas. An item is a key,
//! a key with a value (`key = "text"`, `key = true`), or a key with a list of
//! such entries in round brackets (`key(sub, sub = "text")`). Blanks may
//! stand between any two tokens, and a comma may close a list.
//!
//! Reading flattens the items into entries: a plain item gives one entry
//! without a sub-key, a bracketed item gives one entry for each member of
//! its list.

use vstd::prelude::*;
use vstd::string::*;
use crate::text::{
    ident_continue_char, ident_start_char, is_ident_continue, is_ident_start, is_identifier,
    is_space, opt_text, same_text, space_char, views_of, views_of_empty, views_of_push,
};

verus! {

/// The value that an entry assigns to its key.
#[derive(Clone, Debug, PartialEq, Eq)]
pub enum Literal {
    /// A quoted text, with its escapes resolved.
    Text(String),
    /// A bare `true` or `false`.
    Flag(bool),
}

/// Model of a [`Literal`].
pub enum LiteralView {
    Text(Seq<char>),
    Flag(bool),
}

impl View for Literal {
    type V = LiteralView;

    open spec fn view(&self) -> LiteralView {
        match self {
            Literal::Text(t) => LiteralView::Text(t@),
            Literal::Flag(b) => LiteralView::Flag(*b),
        }
    }
}

/// One entry of a directive text: `key`, `key = value`, or the member
/// `sub` or `sub = value` of the list of `key(..)`.
#[derive(Clone, Debug, PartialEq, Eq)]
pub struct Entry {
    pub key: String,
    pub sub: Option<String>,
    pub value: Option<Literal>,
}

/// Model of an [`Entry`].
pub struct EntryView {
    pub key: Seq<char>,
    pub sub: Option<Seq<char>>,
    pub value: Option<LiteralView>,
}

/// The view of an optional literal.
pub open spec fn opt_literal(o: Option<Literal>) -> Option<LiteralView> {
    match o {
        Some(l) => Some(l@),
        None => None,
    }
}

impl View for Entry {
    type V = EntryView;

    open spec fn view(&self) -> EntryView {
        EntryView { key: self.key@, sub: opt_text(self.sub), value: opt_literal(self.value) }
    }
}

/// The first position at or after `i` that holds no blank.
pub open spec fn skip_spaces(s: Seq<char>, i: int) -> int
    decreases s.len() - i,
{
    if 0 <= i < s.len() && is_space(s[i]) {
        skip_spaces(s, i + 1)
    } else {
        i
    }
}

/// The end of the run of identifier characters that starts at `i`.
pub open spec fn ident_end(s: Seq<char>, i: int) -> int
    decreases s.len() - i,
{
    if 0 <= i < s.len() && is_ident_continue(s[i]) {
        ident_end(s, i + 1)
    } else {
        i
    }
}

/// The character that a backslash followed by `c` stands for, if any.
pub open spec fn unescape(c: char) -> Option<char> {
    if c == '"' {
        Some('"')
    } else if c == '\\' {
        Some('\\')
    } else if c == '\'' {
        Some('\'')
    } else if c == 'n' {
        Some('\n')
    } else if c == 'r' {
        Some('\r')
    } else if c == 't' {
        Some('\t')
    } else if c == '0' {
        Some('\0')
    } else {
        None
    }
}

/// Reads the inside of a quoted text from `i` on, behind the characters
/// `acc` already read: the text, and the position behind the closing quote.
/// `None` where the quote is never closed or an escape is unknown.
pub open spec fn string_body(s: Seq<char>, i: int, acc: Seq<char>) -> Option<(Seq<char>, int)>
    decreases s.len() - i,
{
    if i < 0 || i >= s.len() {
        None
    } else if s[i] == '"' {
        Some((acc, i + 1))
    } else if s[i] == '\\' {
        if i + 1 < s.len() && unescape(s[i + 1]) is Some {
            string_body(s, i + 2, acc.push(unescape(s[i + 1]).unwrap()))
        } else {
            None
        }
    } else {
        string_body(s, i + 1, acc.push(s[i]))
    }
}

/// Reads the literal that starts at `i`: the literal, and the position
/// behind it.
pub open spec fn literal_at(s: Seq<char>, i: int) -> Option<(LiteralView, int)> {
    if i < 0 || i >= s.len() {
        None
    } else if s[i] == '"' {
        match string_body(s, i + 1, Seq::empty()) {
            Some((t, j)) => Some((LiteralView::Text(t), j)),
            None => None,
        }
    } else if is_ident_start(s[i]) {
        let e = ident_end(s, i);
        let w = s.subrange(i, e);
        if w == "true"@ {
            Some((LiteralView::Flag(true), e))
        } else if w == "false"@ {
            Some((LiteralView::Flag(false), e))
        } else {
            None
        }
    } else {
        None
    }
}

/// Reads what follows a key that ends at `e`: `= literal` or nothing. Gives
/// the value and the position behind it, or the position of the fault.
pub open spec fn value_at(s: Seq<char>, e: int) -> Result<(Option<LiteralView>, int), int> {
    let k = skip_spaces(s, e);
    if 0 <= k < s.len() && s[k] == '=' {
        let v = skip_spaces(s, k + 1);
        match literal_at(s, v) {
            Some((lit, j)) => Ok((Some(lit), j)),
            None => Err(v),
        }
    } else {
        Ok((None, e))
    }
}

/// Reads the members of the list of `key(..)` from `i` on, behind the
/// entries `acc` already read: all entries, and the position behind the
/// closing bracket; or the position of the fault.
pub open spec fn sub_entries(s: Seq<char>, i: int, key: Seq<char>, acc: Seq<EntryView>) -> Result<
    (Seq<EntryView>, int),
    int,
>
    decreases s.len() - i,
{
    let a = skip_spaces(s, i);
    if i < 0 || a >= s.len() {
        Err(a)
    } else if s[a] == ')' {
        Ok((acc, a + 1))
    } else if is_ident_start(s[a]) {
        let e = ident_end(s, a);
        match value_at(s, e) {
            Err(p) => Err(p),
            Ok((v, after)) => {
                let b = skip_spaces(s, after);
                let grown = acc.push(EntryView { key, sub: Some(s.subrange(a, e)), value: v });
                if b < s.len() && s[b] == ',' {
                    proof {
                        lemma_entry_advances(s, i);
                    }
                    sub_entries(s, b + 1, key, grown)
                } else if b < s.len() && s[b] == ')' {
                    Ok((grown, b + 1))
                } else {
                    Err(b)
                }
            },
        }
    } else {
        Err(a)
    }
}

/// Reads the item whose key starts at `a`, behind the entries `acc`
/// already read: all entries, and the position behind the item; or the
/// position of the fault.
pub open spec fn item_at(s: Seq<char>, a: int, acc: Seq<EntryView>) -> Result<
    (Seq<EntryView>, int),
    int,
> {
    let e = ident_end(s, a);
    let key = s.subrange(a, e);
    let k = skip_spaces(s, e);
    if 0 <= k < s.len() && s[k] == '(' {
        sub_entries(s, k + 1, key, acc)
    } else {
        match value_at(s, e) {
            Err(p) => Err(p),
            Ok((v, after)) => Ok((acc.push(EntryView { key, sub: None, value: v }), after)),
        }
    }
}

/// Reads the items of a directive text from `i` on, behind the entries
/// `acc` already read: all entries, or the position of the fault.
pub open spec fn items_from(s: Seq<char>, i: int, acc: Seq<EntryView>) -> Result<
    Seq<EntryView>,
    int,
>
    decreases s.len() - i,
{
    let a = skip_spaces(s, i);
    if i < 0 || a >= s.len() {
        Ok(acc)
    } else if is_ident_start(s[a]) {
        match item_at(s, a, acc) {
            Err(p) => Err(p),
            Ok((grown, after)) => {
                let b = skip_spaces(s, after);
                if b >= s.len() {
                    Ok(grown)
                } else if s[b] == ',' {
                    proof {
                        lemma_skip_spaces(s, i);
                        lemma_item_at(s, a, acc);
                        lemma_skip_spaces(s, after);
                    }
                    items_from(s, b + 1, grown)
                } else {
                    Err(b)
                }
            },
        }
    } else {
        Err(a)
    }
}

/// The entries of a directive text, or the position at which reading
/// stopped.
pub open spec fn entries_of(s: Seq<char>) -> Result<Seq<EntryView>, int> {
    items_from(s, 0, Seq::empty())
}

/// Skipping blanks moves forward, stays inside the text and stops at a
/// character that is no blank.
pub proof fn lemma_skip_spaces(s: Seq<char>, i: int)
    requires
        0 <= i <= s.len(),
    ensures
        i <= skip_spaces(s, i) <= s.len(),
        skip_spaces(s, i) < s.len() ==> !is_space(s[skip_spaces(s, i)]),
    decreases s.len() - i,
{
    if i < s.len() && is_space(s[i]) {
        lemma_skip_spaces(s, i + 1);
    }
}

/// A run of identifier characters stays inside the text, and is not empty
/// where it starts at an identifier character.
pub proof fn lemma_ident_end(s: Seq<char>, i: int)
    requires
        0 <= i <= s.len(),
    ensures
        i <= ident_end(s, i) <= s.len(),
        i < s.len() && is_ident_continue(s[i]) ==> i < ident_end(s, i),
        forall|j: int| i <= j < ident_end(s, i) ==> is_ident_continue(#[trigger] s[j]),
        ident_end(s, i) < s.len() ==> !is_ident_continue(s[ident_end(s, i)]),
    decreases s.len() - i,
{
    if i < s.len() && is_ident_continue(s[i]) {
        lemma_ident_end(s, i + 1);
    }
}

/// A quoted text ends behind the place where its inside starts, and inside
/// the text.
pub proof fn lemma_string_body(s: Seq<char>, i: int, acc: Seq<char>)
    requires
        0 <= i,
    ensures
        string_body(s, i, acc) matches Some((t, j)) ==> i < j <= s.len(),
    decreases s.len() - i,
{
    if i < s.len() && s[i] != '"' {
        if s[i] == '\\' {
            if i + 1 < s.len() && unescape(s[i + 1]) is Some {
                lemma_string_body(s, i + 2, acc.push(unescape(s[i + 1]).unwrap()));
            }
        } else {
            lemma_string_body(s, i + 1, acc.push(s[i]));
        }
    }
}

/// A literal is not empty and ends inside the text.
pub proof fn lemma_literal_at(s: Seq<char>, i: int)
    ensures
        literal_at(s, i) matches Some((l, j)) ==> 0 <= i < j <= s.len(),
{
    if 0 <= i < s.len() {
        if s[i] == '"' {
            lemma_string_body(s, i + 1, Seq::empty());
        } else if is_ident_start(s[i]) {
            lemma_ident_end(s, i);
        }
    }
}

/// What follows a key ends at or behind the end of the key, inside the
/// text.
pub proof fn lemma_value_at(s: Seq<char>, e: int)
    requires
        0 <= e <= s.len(),
    ensures
        value_at(s, e) matches Ok((v, j)) ==> e <= j <= s.len(),
        value_at(s, e) matches Err(p) ==> e <= p <= s.len(),
{
    lemma_skip_spaces(s, e);
    let k = skip_spaces(s, e);
    if k < s.len() && s[k] == '=' {
        lemma_skip_spaces(s, k + 1);
        lemma_literal_at(s, skip_spaces(s, k + 1));
    }
}

/// Behind a member of a list, reading goes on strictly behind the place
/// where the member was looked for.
pub proof fn lemma_entry_advances(s: Seq<char>, i: int)
    requires
        0 <= i,
        skip_spaces(s, i) < s.len(),
        is_ident_start(s[skip_spaces(s, i)]),
    ensures
        value_at(s, ident_end(s, skip_spaces(s, i))) matches Ok((v, after)) ==> i < skip_spaces(
            s,
            after,
        ) <= s.len(),
        value_at(s, ident_end(s, skip_spaces(s, i))) matches Err(p) ==> i < p <= s.len(),
{
    if i <= s.len() {
        lemma_skip_spaces(s, i);
        let a = skip_spaces(s, i);
        lemma_ident_end(s, a);
        let e = ident_end(s, a);
        lemma_value_at(s, e);
        match value_at(s, e) {
            Ok((v, after)) => {
                lemma_skip_spaces(s, after);
            },
            Err(p) => {},
        }
    }
}

/// The list of `key(..)` ends behind the place where it starts, inside the
/// text, and a fault in it lies inside the text.
pub proof fn lemma_sub_entries(s: Seq<char>, i: int, key: Seq<char>, acc: Seq<EntryView>)
    requires
        0 <= i <= s.len(),
    ensures
        sub_entries(s, i, key, acc) matches Ok((grown, j)) ==> i < j <= s.len(),
        sub_entries(s, i, key, acc) matches Err(p) ==> i <= p <= s.len(),
    decreases s.len() - i,
{
    lemma_skip_spaces(s, i);
    let a = skip_spaces(s, i);
    if a < s.len() && s[a] != ')' && is_ident_start(s[a]) {
        lemma_entry_advances(s, i);
        let e = ident_end(s, a);
        match value_at(s, e) {
            Err(p) => {},
            Ok((v, after)) => {
                let b = skip_spaces(s, after);
                let grown = acc.push(EntryView { key, sub: Some(s.subrange(a, e)), value: v });
                if b < s.len() && s[b] == ',' {
                    lemma_sub_entries(s, b + 1, key, grown);
                }
            },
        }
    }
}

/// An item ends behind the place where its key starts, inside the text,
/// and a fault in it lies inside the text.
pub proof fn lemma_item_at(s: Seq<char>, a: int, acc: Seq<EntryView>)
    requires
        0 <= a < s.len(),
        is_ident_start(s[a]),
    ensures
        item_at(s, a, acc) matches Ok((grown, after)) ==> a < after <= s.len(),
        item_at(s, a, acc) matches Err(p) ==> a <= p <= s.len(),
{
    lemma_ident_end(s, a);
    let e = ident_end(s, a);
    lemma_skip_spaces(s, e);
    let k = skip_spaces(s, e);
    if k < s.len() && s[k] == '(' {
        lemma_sub_entries(s, k + 1, s.subrange(a, e), acc);
    } else {
        lemma_value_at(s, e);
    }
}

/// Skips the blanks from `i` on.
fn scan_spaces(text: &str, n: usize, i: usize) -> (j: usize)
    requires
        n == text@.len(),
        i <= n,
    ensures
        j == skip_spaces(text@, i as int),
        i <= j <= n,
{
    let mut j: usize = i;
    while j < n && space_char(text.get_char(j))
        invariant
            n == text@.len(),
            i <= j <= n,
            skip_spaces(text@, i as int) == skip_spaces(text@, j as int),
        decreases n - j,
    {
        j = j + 1;
    }
    j
}

/// Reads the word that starts at `i`.
fn scan_word(text: &str, n: usize, i: usize) -> (r: (String, usize))
    requires
        n == text@.len(),
        i <= n,
    ensures
        r.1 == ident_end(text@, i as int),
        r.0@ == text@.subrange(i as int, r.1 as int),
        i <= r.1 <= n,
{
    let mut j: usize = i;
    while j < n && ident_continue_char(text.get_char(j))
        invariant
            n == text@.len(),
            i <= j <= n,
            ident_end(text@, i as int) == ident_end(text@, j as int),
        decreases n - j,
    {
        j = j + 1;
    }
    (String::from_str(text.substring_char(i, j)), j)
}

/// The text of one character that a backslash followed by `c` stands for.
fn escaped_char(c: char) -> (r: Option<&'static str>)
    ensures
        r matches Some(t) ==> unescape(c) is Some && t@ == seq![unescape(c).unwrap()],
        r is None ==> unescape(c) is None,
{
    proof {
        reveal_strlit("\"");
        reveal_strlit("\\");
        reveal_strlit("'");
        reveal_strlit("\n");
        reveal_strlit("\r");
        reveal_strlit("\t");
        reveal_strlit("\0");
    }
    let r = if c == '"' {
        Some("\"")
    } else if c == '\\' {
        Some("\\")
    } else if c == '\'' {
        Some("'")
    } else if c == 'n' {
        Some("\n")
    } else if c == 'r' {
        Some("\r")
    } else if c == 't' {
        Some("\t")
    } else if c == '0' {
        Some("\0")
    } else {
        None
    };
    assert(r matches Some(t) ==> t@ =~= seq![unescape(c).unwrap()]);
    r
}

/// Reads the inside of a quoted text from `i` on.
fn scan_string(text: &str, n: usize, i: usize) -> (r: Option<(String, usize)>)
    requires
        n == text@.len(),
        i <= n,
    ensures
        match r {
            Some((t, j)) => string_body(text@, i as int, Seq::empty()) == Some((t@, j as int))
                && i < j <= n,
            None => string_body(text@, i as int, Seq::empty()) is None,
        },
{
    let mut out = String::new();
    let mut j: usize = i;
    while j < n
        invariant
            n == text@.len(),
            i <= j <= n,
            string_body(text@, i as int, Seq::empty()) == string_body(text@, j as int, out@),
        decreases n - j,
    {
        let c = text.get_char(j);
        if c == '"' {
            proof {
                lemma_string_body(text@, i as int, Seq::empty());
            }
            return Some((out, j + 1));
        } else if c == '\\' {
            if j + 1 >= n {
                return None;
            }
            match escaped_char(text.get_char(j + 1)) {
                None => {
                    return None;
                },
                Some(t) => {
                    let ghost before = out@;
                    out.append(t);
                    assert(out@ =~= before.push(unescape(text@[j + 1]).unwrap()));
                    j = j + 2;
                },
            }
        } else {
            let ghost before = out@;
            out.append(text.substring_char(j, j + 1));
            assert(out@ =~= before.push(text@[j as int]));
            j = j + 1;
        }
    }
    None
}

/// Reads the literal that starts at `i`.
fn scan_literal(text: &str, n: usize, i: usize) -> (r: Option<(Literal, usize)>)
    requires
        n == text@.len(),
        i <= n,
    ensures
        match r {
            Some((l, j)) => literal_at(text@, i as int) == Some((l@, j as int)) && i < j <= n,
            None => literal_at(text@, i as int) is None,
        },
{
    if i >= n {
        return None;
    }
    let c = text.get_char(i);
    if c == '"' {
        match scan_string(text, n, i + 1) {
            Some((t, j)) => Some((Literal::Text(t), j)),
            None => None,
        }
    } else if ident_start_char(c) {
        let (w, e) = scan_word(text, n, i);
        proof {
            lemma_ident_end(text@, i as int);
        }
        if same_text(w.as_str(), "true") {
            Some((Literal::Flag(true), e))
        } else if same_text(w.as_str(), "false") {
            Some((Literal::Flag(false), e))
        } else {
            None
        }
    } else {
        None
    }
}

/// Reads what follows a key that ends at `e`.
fn scan_value(text: &str, n: usize, e: usize) -> (r: Result<(Option<Literal>, usize), usize>)
    requires
        n == text@.len(),
        e <= n,
    ensures
        match r {
            Ok((v, j)) => value_at(text@, e as int) == Ok::<(Option<LiteralView>, int), int>(
                (opt_literal(v), j as int),
            ) && e <= j <= n,
            Err(p) => value_at(text@, e as int) == Err::<(Option<LiteralView>, int), int>(
                p as int,
            ) && e <= p <= n,
        },
{
    let k = scan_spaces(text, n, e);
    if k < n && text.get_char(k) == '=' {
        let v = scan_spaces(text, n, k + 1);
        match scan_literal(text, n, v) {
            Some((lit, j)) => Ok((Some(lit), j)),
            None => Err(v),
        }
    } else {
        Ok((None, e))
    }
}

/// Reads the members of the list of `key(..)` from `i` on and appends
/// their entries to `acc`.
fn scan_sub_entries(text: &str, n: usize, i: usize, key: &String, acc: &mut Vec<Entry>) -> (r:
    Result<usize, usize>)
    requires
        n == text@.len(),
        i <= n,
    ensures
        match r {
            Ok(j) => sub_entries(text@, i as int, key@, views_of(old(acc)@)) == Ok::<
                (Seq<EntryView>, int),
                int,
            >((views_of(final(acc)@), j as int)) && i < j <= n,
            Err(p) => sub_entries(text@, i as int, key@, views_of(old(acc)@)) == Err::<
                (Seq<EntryView>, int),
                int,
            >(p as int) && i <= p <= n,
        },
{
    let mut pos: usize = i;
    loop
        invariant
            n == text@.len(),
            i <= pos <= n,
            sub_entries(text@, i as int, key@, views_of(old(acc)@)) == sub_entries(
                text@,
                pos as int,
                key@,
                views_of(acc@),
            ),
        decreases n - pos,
    {
        let a = scan_spaces(text, n, pos);
        if a >= n {
            return Err(a);
        }
        let c = text.get_char(a);
        if c == ')' {
            return Ok(a + 1);
        }
        if !ident_start_char(c) {
            return Err(a);
        }
        let (sub, e) = scan_word(text, n, a);
        proof {
            lemma_ident_end(text@, a as int);
        }
        match scan_value(text, n, e) {
            Err(p) => {
                return Err(p);
            },
            Ok((v, after)) => {
                let b = scan_spaces(text, n, after);
                let entry = Entry { key: key.clone(), sub: Some(sub), value: v };
                proof {
                    views_of_push(acc@, entry);
                }
                acc.push(entry);
                if b < n && text.get_char(b) == ',' {
                    pos = b + 1;
                } else if b < n && text.get_char(b) == ')' {
                    return Ok(b + 1);
                } else {
                    return Err(b);
                }
            },
        }
    }
}

/// Reads the item whose key starts at `a` and appends its entries to
/// `acc`.
fn scan_item(text: &str, n: usize, a: usize, acc: &mut Vec<Entry>) -> (r: Result<usize, usize>)
    requires
        n == text@.len(),
        a < n,
        is_ident_start(text@[a as int]),
    ensures
        match r {
            Ok(j) => item_at(text@, a as int, views_of(old(acc)@)) == Ok::<
                (Seq<EntryView>, int),
                int,
            >((views_of(final(acc)@), j as int)) && a < j <= n,
            Err(p) => item_at(text@, a as int, views_of(old(acc)@)) == Err::<
                (Seq<EntryView>, int),
                int,
            >(p as int) && a <= p <= n,
        },
{
    let (key, e) = scan_word(text, n, a);
    proof {
        lemma_ident_end(text@, a as int);
    }
    let k = scan_spaces(text, n, e);
    if k < n && text.get_char(k) == '(' {
        scan_sub_entries(text, n, k + 1, &key, acc)
    } else {
        match scan_value(text, n, e) {
            Err(p) => Err(p),
            Ok((v, after)) => {
                let entry = Entry { key, sub: None, value: v };
                proof {
                    views_of_push(acc@, entry);
                }
                acc.push(entry);
                Ok(after)
            },
        }
    }
}

/// Reads a directive text into its entries.
///
/// `Ok` holds the entries in the order in which the text gives them; `Err`
/// holds the index of the character at which the text stops following the
/// grammar.
pub fn parse_entries(text: &str) -> (r: Result<Vec<Entry>, usize>)
    ensures
        match r {
            Ok(v) => entries_of(text@) == Ok::<Seq<EntryView>, int>(views_of(v@)),
            Err(p) => entries_of(text@) == Err::<Seq<EntryView>, int>(p as int) && p
                <= text@.len(),
        },
{
    let n: usize = text.unicode_len();
    let mut acc: Vec<Entry> = Vec::new();
    let mut pos: usize = 0;
    proof {
        views_of_empty::<Entry>();
    }
    loop
        invariant
            n == text@.len(),
            pos <= n,
            entries_of(text@) == items_from(text@, pos as int, views_of(acc@)),
        decreases n - pos,
    {
        let a = scan_spaces(text, n, pos);
        if a >= n {
            return Ok(acc);
        }
        if !ident_start_char(text.get_char(a)) {
            return Err(a);
        }
        match scan_item(text, n, a, &mut acc) {
            Err(p) => {
                return Err(p);
            },
            Ok(after) => {
                let b = scan_spaces(text, n, after);
                if b >= n {
                    return Ok(acc);
                } else if text.get_char(b) == ',' {
                    pos = b + 1;
                } else {
                    return Err(b);
                }
            },
        }
    }
}

/// The key of an entry is an identifier, and so is its sub-key where it
/// has one.
pub open spec fn well_keyed(e: EntryView) -> bool {
    &&& is_identifier(e.key)
    &&& e.sub matches Some(sub) ==> is_identifier(sub)
}

/// All entries of a list are well keyed.
pub open spec fn all_well_keyed(es: Seq<EntryView>) -> bool {
    forall|k: int| 0 <= k < es.len() ==> well_keyed(#[trigger] es[k])
}

/// The word that starts at an identifier character is an identifier.
pub proof fn lemma_word_is_identifier(s: Seq<char>, a: int)
    requires
        0 <= a < s.len(),
        is_ident_start(s[a]),
    ensures
        is_identifier(s.subrange(a, ident_end(s, a))),
{
    lemma_ident_end(s, a);
    let w = s.subrange(a, ident_end(s, a));
    assert(w[0] == s[a]);
    assert forall|i: int| 0 < i < w.len() implies is_ident_continue(#[trigger] w[i]) by {
        assert(w[i] == s[a + i]);
    }
}

/// The members of a list under an identifier are well keyed.
pub proof fn lemma_sub_entries_keyed(s: Seq<char>, i: int, key: Seq<char>, acc: Seq<EntryView>)
    requires
        0 <= i <= s.len(),
        is_identifier(key),
        all_well_keyed(acc),
    ensures
        sub_entries(s, i, key, acc) matches Ok((grown, j)) ==> all_well_keyed(grown),
    decreases s.len() - i,
{
    lemma_skip_spaces(s, i);
    let a = skip_spaces(s, i);
    if a < s.len() && s[a] != ')' && is_ident_start(s[a]) {
        lemma_entry_advances(s, i);
        lemma_word_is_identifier(s, a);
        let e = ident_end(s, a);
        match value_at(s, e) {
            Err(p) => {},
            Ok((v, after)) => {
                let b = skip_spaces(s, after);
                let entry = EntryView { key, sub: Some(s.subrange(a, e)), value: v };
                let grown = acc.push(entry);
                assert forall|k: int| 0 <= k < grown.len() implies well_keyed(
                    #[trigger] grown[k],
                ) by {
                    if k < acc.len() {
                        assert(grown[k] == acc[k]);
                    }
                }
                if b < s.len() && s[b] == ',' {
                    lemma_sub_entries_keyed(s, b + 1, key, grown);
                }
            },
        }
    }
}

/// The entries of an item are well keyed.
pub proof fn lemma_item_at_keyed(s: Seq<char>, a: int, acc: Seq<EntryView>)
    requires
        0 <= a < s.len(),
        is_ident_start(s[a]),
        all_well_keyed(acc),
    ensures
        item_at(s, a, acc) matches Ok((grown, after)) ==> all_well_keyed(grown),
{
    lemma_ident_end(s, a);
    lemma_word_is_identifier(s, a);
    let e = ident_end(s, a);
    let key = s.subrange(a, e);
    lemma_skip_spaces(s, e);
    let k = skip_spaces(s, e);
    if k < s.len() && s[k] == '(' {
        lemma_sub_entries_keyed(s, k + 1, key, acc);
    } else {
        match value_at(s, e) {
            Err(p) => {},
            Ok((v, after)) => {
                let grown = acc.push(EntryView { key, sub: None, value: v });
                assert forall|k: int| 0 <= k < grown.len() implies well_keyed(
                    #[trigger] grown[k],
                ) by {
                    if k < acc.len() {
                        assert(grown[k] == acc[k]);
                    }
                }
            },
        }
    }
}

/// The entries of the items of a text are well keyed.
pub proof fn lemma_items_from_keyed(s: Seq<char>, i: int, acc: Seq<EntryView>)
    requires
        0 <= i <= s.len(),
        all_well_keyed(acc),
    ensures
        items_from(s, i, acc) matches Ok(es) ==> all_well_keyed(es),
    decreases s.len() - i,
{
    lemma_skip_spaces(s, i);
    let a = skip_spaces(s, i);
    if a < s.len() && is_ident_start(s[a]) {
        lemma_item_at(s, a, acc);
        lemma_item_at_keyed(s, a, acc);
        match item_at(s, a, acc) {
            Err(p) => {},
            Ok((grown, after)) => {
                lemma_skip_spaces(s, after);
                let b = skip_spaces(s, after);
                if b < s.len() && s[b] == ',' {
                    lemma_items_from_keyed(s, b + 1, grown);
                }
            },
        }
    }
}

/// Every entry that is read from a text has an identifier as its key,
/// and an identifier as its sub-key where it has one.
pub proof fn law_entries_are_well_keyed(s: Seq<char>)
    ensures
        entries_of(s) matches Ok(es) ==> all_well_keyed(es),
{
    lemma_items_from_keyed(s, 0, Seq::empty());
}

} // verus!
