//! Writing entries as directive text.
//!
//! Every list of entries whose keys are identifiers has a written form,
//! and reading the written form gives the list back.

use vstd::prelude::*;
use vstd::string::*;
use crate::grammar::{
    all_well_keyed, entries_of, ident_end, item_at, items_from, law_entries_are_well_keyed,
    literal_at, skip_spaces, string_body, sub_entries, value_at, well_keyed, Entry, EntryView,
    Literal, LiteralView,
};
use crate::text::{is_ident_continue, is_ident_start, is_identifier, is_space, views_of};

verus! {

/// How a character stands inside a quoted text: a quote and a backslash
/// behind a backslash, every other character as it is.
pub open spec fn escape_of(c: char) -> Seq<char> {
    if c == '"' || c == '\\' {
        seq!['\\', c]
    } else {
        seq![c]
    }
}

/// The inside of the quoted text that stands for `t`.
pub open spec fn escaped(t: Seq<char>) -> Seq<char>
    decreases t.len(),
{
    if t.len() == 0 {
        Seq::empty()
    } else {
        escape_of(t[0]) + escaped(t.drop_first())
    }
}

/// The written form of a literal.
pub open spec fn written_literal(l: LiteralView) -> Seq<char> {
    match l {
        LiteralView::Text(t) => seq!['"'] + escaped(t) + seq!['"'],
        LiteralView::Flag(b) => if b {
            "true"@
        } else {
            "false"@
        },
    }
}

/// The written form of what follows a key: nothing, or `=` and the
/// literal.
pub open spec fn written_value(v: Option<LiteralView>) -> Seq<char> {
    match v {
        None => Seq::empty(),
        Some(l) => seq!['='] + written_literal(l),
    }
}

/// The written form of an entry: `key`, `key=value`, `key(sub)` or
/// `key(sub=value)`.
pub open spec fn written_entry(e: EntryView) -> Seq<char> {
    match e.sub {
        None => e.key + written_value(e.value),
        Some(sub) => e.key + seq!['('] + sub + written_value(e.value) + seq![')'],
    }
}

/// The written form of a list of entries: each entry with a comma behind
/// it.
pub open spec fn written(es: Seq<EntryView>) -> Seq<char>
    decreases es.len(),
{
    if es.len() == 0 {
        Seq::empty()
    } else {
        written_entry(es[0]) + seq![','] + written(es.drop_first())
    }
}

/// The text `x` stands in `s` from position `i` on.
pub open spec fn occurs(s: Seq<char>, i: int, x: Seq<char>) -> bool {
    &&& 0 <= i
    &&& i + x.len() <= s.len()
    &&& forall|k: int| 0 <= k < x.len() ==> s[i + k] == #[trigger] x[k]
}

/// Where two texts stand in `s` one behind the other, each stands there
/// by itself.
pub proof fn lemma_occurs_split(s: Seq<char>, i: int, a: Seq<char>, b: Seq<char>)
    requires
        occurs(s, i, a + b),
    ensures
        occurs(s, i, a),
        occurs(s, i + a.len(), b),
{
    assert forall|k: int| 0 <= k < a.len() implies s[i + k] == #[trigger] a[k] by {
        assert((a + b)[k] == a[k]);
    }
    assert forall|k: int| 0 <= k < b.len() implies s[i + a.len() + k] == #[trigger] b[k] by {
        assert((a + b)[a.len() + k] == b[k]);
    }
}

/// A run of identifier characters ends where the first other character
/// stands.
pub proof fn lemma_run_end(s: Seq<char>, i: int, j: int)
    requires
        0 <= i <= j <= s.len(),
        forall|k: int| i <= k < j ==> is_ident_continue(#[trigger] s[k]),
        j == s.len() || !is_ident_continue(s[j]),
    ensures
        ident_end(s, i) == j,
    decreases j - i,
{
    if i < j {
        assert(is_ident_continue(s[i]));
        lemma_run_end(s, i + 1, j);
    }
}

/// An identifier that stands in `s` before a character that continues no
/// identifier is read as a word.
pub proof fn lemma_reads_word(s: Seq<char>, i: int, w: Seq<char>)
    requires
        occurs(s, i, w),
        is_identifier(w),
        i + w.len() == s.len() || !is_ident_continue(s[i + w.len()]),
    ensures
        is_ident_start(s[i]),
        !is_space(s[i]),
        ident_end(s, i) == i + w.len(),
        s.subrange(i, i + w.len()) == w,
{
    assert(s[i] == w[0]);
    assert forall|k: int| i <= k < i + w.len() implies is_ident_continue(#[trigger] s[k]) by {
        assert(s[i + (k - i)] == w[k - i]);
        if k > i {
            assert(is_ident_continue(w[k - i]));
        }
    }
    lemma_run_end(s, i, i + w.len());
    assert(s.subrange(i, i + w.len()) =~= w);
}

/// The inside of a quoted text that stands in `s` before a quote is read
/// as the text that it stands for.
pub proof fn lemma_reads_escaped(s: Seq<char>, i: int, t: Seq<char>, acc: Seq<char>)
    requires
        occurs(s, i, escaped(t)),
        i + escaped(t).len() < s.len(),
        s[i + escaped(t).len()] == '"',
    ensures
        string_body(s, i, acc) == Some((acc + t, i + escaped(t).len() + 1)),
    decreases t.len(),
{
    if t.len() == 0 {
        assert(acc + t =~= acc);
    } else {
        let c = t[0];
        let tail = t.drop_first();
        lemma_occurs_split(s, i, escape_of(c), escaped(tail));
        assert(acc.push(c) + tail =~= acc + t);
        if c == '"' || c == '\\' {
            assert(s[i + 0] == escape_of(c)[0]);
            assert(s[i + 1] == escape_of(c)[1]);
            lemma_reads_escaped(s, i + 2, tail, acc.push(c));
        } else {
            assert(s[i + 0] == escape_of(c)[0]);
            lemma_reads_escaped(s, i + 1, tail, acc.push(c));
        }
    }
}

/// A character that may stand behind a written entry: a comma or a
/// closing bracket.
pub open spec fn is_closer(c: char) -> bool {
    c == ',' || c == ')'
}

/// The written form of a literal that stands in `s` before a closer is
/// read as the literal.
pub proof fn lemma_reads_literal(s: Seq<char>, i: int, l: LiteralView)
    requires
        occurs(s, i, written_literal(l)),
        i + written_literal(l).len() < s.len(),
        is_closer(s[i + written_literal(l).len()]),
    ensures
        written_literal(l).len() > 0,
        !is_space(s[i]),
        literal_at(s, i) == Some((l, i + written_literal(l).len())),
{
    match l {
        LiteralView::Text(t) => {
            lemma_occurs_split(s, i, seq!['"'] + escaped(t), seq!['"']);
            lemma_occurs_split(s, i, seq!['"'], escaped(t));
            assert(s[i + 0] == seq!['"'][0]);
            assert(s[i + 1 + escaped(t).len() + 0] == seq!['"'][0]);
            lemma_reads_escaped(s, i + 1, t, Seq::empty());
            assert(Seq::<char>::empty() + t =~= t);
        },
        LiteralView::Flag(b) => {
            reveal_strlit("true");
            reveal_strlit("false");
            let w = written_literal(l);
            assert forall|k: int| 0 <= k < w.len() implies is_ident_start(#[trigger] w[k]) by {}
            assert(is_identifier(w));
            lemma_reads_word(s, i, w);
            assert("true"@.len() != "false"@.len());
        },
    }
}

/// The written form of what follows a key, where it stands in `s` before
/// a closer, is read as the value.
pub proof fn lemma_reads_value(s: Seq<char>, e: int, v: Option<LiteralView>)
    requires
        occurs(s, e, written_value(v)),
        e + written_value(v).len() < s.len(),
        is_closer(s[e + written_value(v).len()]),
    ensures
        !is_ident_continue(s[e]),
        !is_space(s[e]),
        s[e] != '(',
        value_at(s, e) == Ok::<(Option<LiteralView>, int), int>((v, e + written_value(v).len())),
{
    match v {
        None => {},
        Some(l) => {
            lemma_occurs_split(s, e, seq!['='], written_literal(l));
            assert(s[e + 0] == seq!['='][0]);
            lemma_reads_literal(s, e + 1, l);
        },
    }
}

/// The written form of an entry that stands in `s` before a comma is
/// read as the entry.
pub proof fn lemma_reads_entry(s: Seq<char>, a: int, e: EntryView, acc: Seq<EntryView>)
    requires
        well_keyed(e),
        occurs(s, a, written_entry(e)),
        a + written_entry(e).len() < s.len(),
        s[a + written_entry(e).len()] == ',',
    ensures
        is_ident_start(s[a]),
        !is_space(s[a]),
        item_at(s, a, acc) == Ok::<(Seq<EntryView>, int), int>(
            (acc.push(e), a + written_entry(e).len()),
        ),
{
    match e.sub {
        None => {
            lemma_occurs_split(s, a, e.key, written_value(e.value));
            let end = a + e.key.len();
            lemma_reads_value(s, end, e.value);
            lemma_reads_word(s, a, e.key);
        },
        Some(sub) => {
            let value = written_value(e.value);
            lemma_occurs_split(s, a, e.key + seq!['('] + sub + value, seq![')']);
            lemma_occurs_split(s, a, e.key + seq!['('] + sub, value);
            lemma_occurs_split(s, a, e.key + seq!['('], sub);
            lemma_occurs_split(s, a, e.key, seq!['(']);
            let open = a + e.key.len();
            let inner = open + 1;
            let end = inner + sub.len();
            let close = end + value.len();
            assert(s[open + 0] == seq!['('][0]);
            assert(s[close + 0] == seq![')'][0]);
            assert(close == a + written_entry(e).len() - 1);
            lemma_reads_word(s, a, e.key);
            lemma_reads_value(s, end, e.value);
            lemma_reads_word(s, inner, sub);
            assert(skip_spaces(s, inner) == inner);
            assert(skip_spaces(s, close) == close);
            assert(sub_entries(s, inner, e.key, acc) == Ok::<(Seq<EntryView>, int), int>(
                (acc.push(e), close + 1),
            ));
        },
    }
}

/// The written form of a list of entries, where `s` ends with it, is
/// read as the list.
pub proof fn lemma_reads_written(s: Seq<char>, i: int, es: Seq<EntryView>, acc: Seq<EntryView>)
    requires
        all_well_keyed(es),
        occurs(s, i, written(es)),
        i + written(es).len() == s.len(),
    ensures
        items_from(s, i, acc) == Ok::<Seq<EntryView>, int>(acc + es),
    decreases es.len(),
{
    if es.len() == 0 {
        assert(acc + es =~= acc);
    } else {
        let first = written_entry(es[0]);
        let rest = es.drop_first();
        lemma_occurs_split(s, i, first + seq![','], written(rest));
        lemma_occurs_split(s, i, first, seq![',']);
        let after = i + first.len();
        assert(s[after + 0] == seq![','][0]);
        assert(well_keyed(es[0]));
        lemma_reads_entry(s, i, es[0], acc);
        assert(skip_spaces(s, i) == i);
        assert(skip_spaces(s, after) == after);
        assert forall|k: int| 0 <= k < rest.len() implies well_keyed(#[trigger] rest[k]) by {
            assert(rest[k] == es[k + 1]);
        }
        lemma_reads_written(s, after + 1, rest, acc.push(es[0]));
        assert(acc.push(es[0]) + rest =~= acc + es);
    }
}

/// Reading what was written gives back what was written: the written
/// form of a list of entries whose keys and sub-keys are identifiers is
/// read as that list.
pub proof fn law_written_entries_are_read_back(es: Seq<EntryView>)
    requires
        all_well_keyed(es),
    ensures
        entries_of(written(es)) == Ok::<Seq<EntryView>, int>(es),
{
    lemma_reads_written(written(es), 0, es, Seq::empty());
    assert(Seq::<EntryView>::empty() + es =~= es);
}

/// The written form is a normal form: the entries that are read from any
/// text are read again from their written form.
pub proof fn law_written_form_is_stable(s: Seq<char>)
    requires
        entries_of(s) is Ok,
    ensures
        entries_of(written(entries_of(s)->Ok_0)) == entries_of(s),
{
    law_entries_are_well_keyed(s);
    law_written_entries_are_read_back(entries_of(s)->Ok_0);
}

/// One more character at the end of a text adds its escape at the end
/// of the inside of the quoted text.
pub proof fn lemma_escaped_push(t: Seq<char>, c: char)
    ensures
        escaped(t.push(c)) == escaped(t) + escape_of(c),
    decreases t.len(),
{
    let longer = t.push(c);
    assert(escaped(longer) == escape_of(longer[0]) + escaped(longer.drop_first()));
    if t.len() == 0 {
        assert(longer.drop_first() =~= Seq::empty());
        assert(escaped(Seq::<char>::empty()) =~= Seq::empty());
        assert(escaped(longer) =~= escaped(t) + escape_of(c));
    } else {
        assert(longer.drop_first() =~= t.drop_first().push(c));
        lemma_escaped_push(t.drop_first(), c);
        assert(escaped(t) == escape_of(t[0]) + escaped(t.drop_first()));
        assert(escaped(longer) =~= escaped(t) + escape_of(c));
    }
}

/// One more entry at the end of a list adds its written form and a
/// comma at the end of the written form of the list.
pub proof fn lemma_written_push(es: Seq<EntryView>, e: EntryView)
    ensures
        written(es.push(e)) == written(es) + written_entry(e) + seq![','],
    decreases es.len(),
{
    let longer = es.push(e);
    assert(written(longer) == written_entry(longer[0]) + seq![','] + written(longer.drop_first()));
    if es.len() == 0 {
        assert(longer.drop_first() =~= Seq::empty());
        assert(written(Seq::<EntryView>::empty()) =~= Seq::empty());
        assert(written(longer) =~= written(es) + written_entry(e) + seq![',']);
    } else {
        assert(longer.drop_first() =~= es.drop_first().push(e));
        lemma_written_push(es.drop_first(), e);
        assert(written(es) == written_entry(es[0]) + seq![','] + written(es.drop_first()));
        assert(written(longer) =~= written(es) + written_entry(e) + seq![',']);
    }
}

/// Appends the inside of the quoted text that stands for `t`.
fn write_escaped(out: &mut String, t: &str)
    ensures
        final(out)@ == old(out)@ + escaped(t@),
{
    let n: usize = t.unicode_len();
    let mut i: usize = 0;
    proof {
        reveal_strlit("\\");
        assert(t@.take(0) =~= Seq::empty());
        assert(out@ =~= old(out)@ + escaped(t@.take(0)));
    }
    while i < n
        invariant
            n == t@.len(),
            i <= n,
            out@ == old(out)@ + escaped(t@.take(i as int)),
        decreases n - i,
    {
        let c = t.get_char(i);
        let ghost before = out@;
        proof {
            reveal_strlit("\\");
            assert(t@.take(i + 1) =~= t@.take(i as int).push(c));
            lemma_escaped_push(t@.take(i as int), c);
        }
        if c == '"' || c == '\\' {
            out.append("\\");
        }
        out.append(t.substring_char(i, i + 1));
        assert(out@ =~= before + escape_of(c));
        assert(out@ =~= old(out)@ + escaped(t@.take(i + 1)));
        i = i + 1;
    }
    proof {
        assert(t@.take(i as int) =~= t@);
    }
}

/// Appends the written form of a literal.
fn write_literal(out: &mut String, l: &Literal)
    ensures
        final(out)@ == old(out)@ + written_literal(l@),
{
    match l {
        Literal::Text(t) => {
            proof {
                reveal_strlit("\"");
            }
            out.append("\"");
            write_escaped(out, t.as_str());
            out.append("\"");
            assert(out@ =~= old(out)@ + written_literal(l@));
        },
        Literal::Flag(b) => {
            if *b {
                out.append("true");
            } else {
                out.append("false");
            }
        },
    }
}

/// Appends the written form of an entry.
fn write_entry(out: &mut String, e: &Entry)
    ensures
        final(out)@ == old(out)@ + written_entry(e@),
{
    proof {
        reveal_strlit("(");
        reveal_strlit(")");
        reveal_strlit("=");
    }
    out.append(e.key.as_str());
    match &e.sub {
        None => {},
        Some(sub) => {
            out.append("(");
            out.append(sub.as_str());
        },
    }
    let ghost before = out@;
    match &e.value {
        None => {},
        Some(l) => {
            out.append("=");
            write_literal(out, l);
        },
    }
    assert(out@ =~= before + written_value(e@.value));
    match &e.sub {
        None => {},
        Some(sub) => {
            out.append(")");
        },
    }
    assert(out@ =~= old(out)@ + written_entry(e@));
}

/// Writes a list of entries as directive text.
///
/// Every entry is written as `key`, `key=value`, `key(sub)` or
/// `key(sub=value)` with a comma behind it; a text value stands in double
/// quotes, with a backslash before each of its quotes and backslashes.
/// Where the keys and sub-keys are identifiers, reading the text gives
/// the entries back.
pub fn write_entries(entries: &Vec<Entry>) -> (r: String)
    ensures
        r@ == written(views_of(entries@)),
{
    let mut out = String::new();
    let mut i: usize = 0;
    proof {
        reveal_strlit(",");
        assert(views_of(entries@).take(0) =~= Seq::empty());
    }
    while i < entries.len()
        invariant
            i <= entries.len(),
            out@ == written(views_of(entries@).take(i as int)),
        decreases entries.len() - i,
    {
        proof {
            reveal_strlit(",");
            let all = views_of(entries@);
            assert(all.take(i + 1) =~= all.take(i as int).push(entries@[i as int]@));
            lemma_written_push(all.take(i as int), entries@[i as int]@);
        }
        write_entry(&mut out, &entries[i]);
        out.append(",");
        i = i + 1;
    }
    proof {
        assert(views_of(entries@).take(i as int) =~= views_of(entries@));
    }
    out
}

} // verus!
