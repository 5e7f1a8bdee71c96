//! The parts of `toml_edit` that the room configuration logic uses: a
//! format-preserving TOML document, seen as the map of its top-level keys and
//! the sequence of its comments.

use vstd::prelude::*;
use toml_edit::{DocumentMut, Item, TomlError, Value};

verus! {

#[verifier::external_type_specification]
#[verifier::external_body]
pub struct ExDocumentMut(DocumentMut);

#[verifier::external_type_specification]
#[verifier::external_body]
pub struct ExTomlError(TomlError);

/// A value of a TOML document: a string, an integer, a boolean, a table with
/// its keys (a `[table]`, an inline table or a dotted-key table), an array in
/// order (of values, or an array of tables), or a float or date-time, whose
/// value the logic never reads.
pub enum TomlEntry {
    Str(Seq<char>),
    Int(int),
    Bool(bool),
    Table(Map<Seq<char>, TomlEntry>),
    Array(Seq<TomlEntry>),
    Other,
}

/// A scalar value to write into, or read from, a TOML document.
pub enum TomlScalar {
    Str(String),
    Int(i64),
    Bool(bool),
}

impl TomlScalar {
    pub open spec fn entry(self) -> TomlEntry {
        match self {
            TomlScalar::Str(s) => TomlEntry::Str(s@),
            TomlScalar::Int(i) => TomlEntry::Int(i as int),
            TomlScalar::Bool(b) => TomlEntry::Bool(b),
        }
    }
}

/// The entry at `key` of `entries` when it is a string, integer or boolean.
pub open spec fn scalar_at(entries: Map<Seq<char>, TomlEntry>, key: Seq<char>) -> Option<TomlEntry> {
    if entries.contains_key(key) && (entries[key] is Str || entries[key] is Int || entries[key] is Bool) {
        Some(entries[key])
    } else {
        None
    }
}

pub open spec fn opt_entry(o: Option<TomlScalar>) -> Option<TomlEntry> {
    match o {
        Some(v) => Some(v.entry()),
        None => None,
    }
}

/// A comment of a TOML document: its text, from `#` to the end of its line,
/// and the top-level key whose item holds it, if any.
///
/// toml_edit keeps the comment lines above a `key = value` line with the key,
/// a comment at the end of that line with the value, the comment lines above
/// a `[table]` or `[[array]]` header with that table, everything inside a
/// table or array with it, and the comments after the last item with the
/// document. `item` is `Some(k)` when the item of the top-level key `k` (its
/// value, or its table or array with all it holds) holds the comment, and
/// `None` when the comment sits with a top-level key itself (the lines above
/// `k = value`) or with the document.
pub struct TomlComment {
    pub text: Seq<char>,
    pub item: Option<Seq<char>>,
}

/// A TOML document as the logic sees it: its top-level entries with their
/// whole values, and its comments in the order in which they appear.
pub struct TomlDocModel {
    pub entries: Map<Seq<char>, TomlEntry>,
    pub comments: Seq<TomlComment>,
}

/// `c` is not held by the item of any of the top-level keys `keys`.
pub open spec fn comment_kept(c: TomlComment, keys: Set<Seq<char>>) -> bool {
    match c.item {
        Some(k) => !keys.contains(k),
        None => true,
    }
}

/// The comments of `cs` that the items of the keys `keys` do not hold, in order.
pub open spec fn comments_outside(cs: Seq<TomlComment>, keys: Set<Seq<char>>) -> Seq<TomlComment> {
    cs.filter(|c: TomlComment| comment_kept(c, keys))
}

/// Dropping the comments of the items of `a`, then those of `b`, drops the
/// comments of the items of both.
pub proof fn lemma_comments_outside_twice(cs: Seq<TomlComment>, a: Set<Seq<char>>, b: Set<Seq<char>>)
    ensures
        comments_outside(comments_outside(cs, a), b) == comments_outside(cs, a.union(b)),
    decreases cs.len(),
{
    reveal(Seq::filter);
    let pa = |c: TomlComment| comment_kept(c, a);
    if cs.len() > 0 {
        lemma_comments_outside_twice(cs.drop_last(), a, b);
        let x = cs.last();
        let fa = cs.filter(pa);
        let fa0 = cs.drop_last().filter(pa);
        assert(comment_kept(x, a.union(b)) == (comment_kept(x, a) && comment_kept(x, b)));
        if pa(x) {
            assert(fa == fa0.push(x));
            assert(fa.drop_last() =~= fa0);
            assert(fa.last() == x);
        } else {
            assert(fa == fa0);
        }
    }
}

/// What a document holds: each top-level key that has an item, with its
/// whole value, nested tables and arrays included.
pub uninterp spec fn toml_document_entries(doc: DocumentMut) -> Map<Seq<char>, TomlEntry>;

/// The comments a document holds, in order (see [`TomlComment`]).
pub uninterp spec fn toml_document_comments(doc: DocumentMut) -> Seq<TomlComment>;

/// What parsing a text as a TOML document gives: `None` when the text is not
/// valid TOML, else the document's entries and comments.
pub uninterp spec fn toml_text_document(text: Seq<char>) -> Option<TomlDocModel>;

/// The top-level entries of a text read as TOML, when it is valid TOML.
pub open spec fn toml_text_entries(text: Seq<char>) -> Option<Map<Seq<char>, TomlEntry>> {
    match toml_text_document(text) {
        Some(d) => Some(d.entries),
        None => None,
    }
}

/// The comments of a text read as TOML, when it is valid TOML.
pub open spec fn toml_text_comments(text: Seq<char>) -> Option<Seq<TomlComment>> {
    match toml_text_document(text) {
        Some(d) => Some(d.comments),
        None => None,
    }
}

/// `<DocumentMut as FromStr>::from_str`: parses `text` as a TOML document.
/// Claims that it succeeds exactly when the text is valid TOML, and that the
/// document then holds the text's entries and comments. Whitespace and the
/// way each value is written are not stated.
#[verifier::external_body]
pub(crate) fn parse_document(text: &str) -> (res: Result<DocumentMut, TomlError>)
    ensures
        res is Ok <==> toml_text_document(text@) is Some,
        res matches Ok(doc) ==> toml_document_entries(doc) == toml_text_entries(text@)->0,
        res matches Ok(doc) ==> toml_document_comments(doc) == toml_text_comments(text@)->0,
{
    text.parse::<DocumentMut>()
}

/// `<DocumentMut as IndexMut<&str>>::index_mut` followed by an assignment of
/// `toml_edit::value(..)`: sets the top-level `key` to `v`, inserting it when
/// absent. Claims that `key` then holds `v` and every other key keeps its
/// whole value, nested tables and arrays included; and that every comment is
/// kept, in order, except those the replaced item of `key` held (the key
/// itself, with the comment lines above it, stays).
#[verifier::external_body]
pub(crate) fn set_entry(doc: &mut DocumentMut, key: &str, v: TomlScalar)
    ensures
        toml_document_entries(*final(doc)) == toml_document_entries(*old(doc)).insert(key@, v.entry()),
        toml_document_comments(*final(doc)) == comments_outside(toml_document_comments(*old(doc)), set![key@]),
{
    doc[key] = match v {
        TomlScalar::Str(s) => toml_edit::value(s),
        TomlScalar::Int(i) => toml_edit::value(i),
        TomlScalar::Bool(b) => toml_edit::value(b),
    };
}

/// `Table::get` on the document's root: the top-level item at `key`, handed
/// back when it is a string, an integer or a boolean.
#[verifier::external_body]
pub(crate) fn get_entry(doc: &DocumentMut, key: &str) -> (res: Option<TomlScalar>)
    ensures
        opt_entry(res) == scalar_at(toml_document_entries(*doc), key@),
{
    match doc.get(key) {
        Some(Item::Value(Value::String(s))) => Some(TomlScalar::Str(s.value().clone())),
        Some(Item::Value(Value::Integer(i))) => Some(TomlScalar::Int(*i.value())),
        Some(Item::Value(Value::Boolean(b))) => Some(TomlScalar::Bool(*b.value())),
        _ => None,
    }
}

/// `<DocumentMut as Display>::fmt`, through `to_string`: the document as TOML
/// text. Claims that the text parses back to the same entries, every table
/// and array with all it holds, and to the same comments in the same order,
/// each held by the same item. Whitespace and the way each value is written
/// are not stated.
#[verifier::external_body]
pub(crate) fn render_document(doc: &DocumentMut) -> (res: String)
    ensures
        toml_text_document(res@) == Some(TomlDocModel {
            entries: toml_document_entries(*doc),
            comments: toml_document_comments(*doc),
        }),
{
    doc.to_string()
}

/// `<TomlError as Display>::fmt`, through `to_string`: the parser's
/// description of the error. Nothing is claimed of its wording.
#[verifier::external_body]
pub(crate) fn toml_error_message(e: &TomlError) -> String {
    e.to_string()
}

} // verus!
