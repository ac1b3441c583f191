//! How the text of a record is read back: the fields that it holds, with
//! the strings that their literals denote.

use crate::edge::{or_empty, EdgeView};
use crate::escape::{escaped_text, lemma_escape_round_trip};
use crate::literal::{lemma_literal_before, literal_at, literal_value, reads_as_written};
use crate::record::{field_line, record_text};
use vstd::prelude::*;

verus! {

/// One field of a record: its key and the string that its literal denotes.
pub type ReadField = (Seq<char>, Seq<char>);

/// Whether `c` may stand in a key: the keys are made of letters.
pub open spec fn is_key_char(c: char) -> bool {
    ('a' <= c && c <= 'z') || ('A' <= c && c <= 'Z')
}

/// Whether `key` is a key: letters, and at least one.
pub open spec fn is_key(key: Seq<char>) -> bool {
    &&& key.len() > 0
    &&& forall|i: int| 0 <= i < key.len() ==> is_key_char(#[trigger] key[i])
}

/// The number of letters with which `text` begins.
pub open spec fn key_length(text: Seq<char>) -> nat
    decreases text.len(),
{
    if text.len() > 0 && is_key_char(text[0]) {
        1 + key_length(text.skip(1))
    } else {
        0
    }
}

/// Reads one field line from the front of `text`: four spaces, the key,
/// ` = `, a string literal, `;` and a line feed. Gives the field and the
/// text after the line, or `None` where `text` does not begin with such a
/// line.
#[verifier::opaque]
pub open spec fn field_at(text: Seq<char>) -> Option<(ReadField, Seq<char>)> {
    let indent = "    "@;
    let assign = " = \""@;
    let end = ";\n"@;
    let after_indent = text.skip(indent.len() as int);
    let length = key_length(after_indent);
    let after_key = after_indent.skip(length as int);
    if !indent.is_prefix_of(text) || length == 0 || !assign.is_prefix_of(after_key) {
        None
    } else {
        match literal_at(after_key.skip(assign.len() as int)) {
            Some((value, after_literal)) => if end.is_prefix_of(after_literal) {
                Some(((after_indent.take(length as int), value), after_literal.skip(end.len() as int)))
            } else {
                None
            },
            None => None,
        }
    }
}

/// Reads field lines from the front of `text` up to the closing brace, with
/// which the text must end.
pub open spec fn fields_at(text: Seq<char>) -> Option<Seq<ReadField>>
    decreases text.len(),
{
    if text == "}"@ {
        Some(Seq::empty())
    } else {
        match field_at(text) {
            Some((field, rest)) => if rest.len() < text.len() {
                match fields_at(rest) {
                    Some(more) => Some(seq![field] + more),
                    None => None,
                }
            } else {
                None
            },
            None => None,
        }
    }
}

/// The fields of the record that `text` holds, in the order in which they
/// are written: `text` is an opening brace, a line feed, field lines and a
/// closing brace. `None` where `text` is no such record.
pub open spec fn record_fields(text: Seq<char>) -> Option<Seq<ReadField>> {
    let open = "{\n"@;
    if open.is_prefix_of(text) {
        fields_at(text.skip(open.len() as int))
    } else {
        None
    }
}

/// The fields that the record of `edge` is meant to hold.
pub open spec fn expected_fields(edge: EdgeView) -> Seq<ReadField> {
    seq![
        ("repoName"@, edge.name),
        ("repoOwner"@, edge.owner),
        ("repoUrl"@, edge.url),
        ("mainUrl"@, or_empty(edge.homepage_url)),
        ("created"@, edge.created_at),
        ("starred"@, edge.starred_at),
        ("description"@, or_empty(edge.description)),
    ]
}

/// Whether the record of `edge` can be read back: every field that is
/// written as it is reads as written, and the description, which is
/// escaped, holds no carriage return.
pub open spec fn renders_faithfully(edge: EdgeView) -> bool {
    &&& reads_as_written(edge.name)
    &&& reads_as_written(edge.owner)
    &&& reads_as_written(edge.url)
    &&& reads_as_written(or_empty(edge.homepage_url))
    &&& reads_as_written(edge.created_at)
    &&& reads_as_written(edge.starred_at)
    &&& !or_empty(edge.description).contains('\r')
}

/// A key is read up to the first character that is no letter.
proof fn lemma_key_length(key: Seq<char>, rest: Seq<char>)
    requires
        forall|i: int| 0 <= i < key.len() ==> is_key_char(#[trigger] key[i]),
        rest.len() == 0 || !is_key_char(rest[0]),
    ensures
        key_length(key + rest) == key.len(),
    decreases key.len(),
{
    let text = key + rest;
    if key.len() == 0 {
        assert(text =~= rest);
    } else {
        assert(text[0] == key[0]);
        assert(text.skip(1) =~= key.skip(1) + rest);
        assert forall|i: int| 0 <= i < key.skip(1).len() implies is_key_char(
            #[trigger] key.skip(1)[i],
        ) by {
            assert(key.skip(1)[i] == key[i + 1]);
        }
        lemma_key_length(key.skip(1), rest);
    }
}

/// A field line is read as its key and the string that its body denotes.
proof fn lemma_field_line(key: Seq<char>, body: Seq<char>, value: Seq<char>, rest: Seq<char>)
    requires
        is_key(key),
        literal_value(body) == Some(value),
    ensures
        field_at(field_line(key, body) + rest) == Some(((key, value), rest)),
        (field_line(key, body) + rest).len() > rest.len(),
{
    reveal(field_at);
    reveal_strlit("    ");
    reveal_strlit(" = \"");
    reveal_strlit("\";\n");
    reveal_strlit(";\n");
    let indent = "    "@;
    let assign = " = \""@;
    let end = ";\n"@;
    let text = field_line(key, body) + rest;
    let tail = end + rest;
    assert("\";\n"@ =~= seq!['"'] + end);
    assert(text =~= indent + (key + (assign + (body + seq!['"'] + tail))));
    assert(indent =~= text.subrange(0, indent.len() as int));
    let after_indent = text.skip(indent.len() as int);
    assert(after_indent =~= key + (assign + (body + seq!['"'] + tail)));
    assert(!is_key_char((assign + (body + seq!['"'] + tail))[0]));
    lemma_key_length(key, assign + (body + seq!['"'] + tail));
    let after_key = after_indent.skip(key.len() as int);
    assert(after_key =~= assign + (body + seq!['"'] + tail));
    assert(after_indent.take(key.len() as int) =~= key);
    assert(assign =~= after_key.subrange(0, assign.len() as int));
    assert(after_key.skip(assign.len() as int) =~= body + seq!['"'] + tail);
    lemma_literal_before(body, value, tail);
    assert(end =~= tail.subrange(0, end.len() as int));
    assert(tail.skip(end.len() as int) =~= rest);
}

/// A field line in front of field lines is read as one more field.
proof fn lemma_fields_after(
    key: Seq<char>,
    body: Seq<char>,
    value: Seq<char>,
    rest: Seq<char>,
    more: Seq<ReadField>,
)
    requires
        is_key(key),
        literal_value(body) == Some(value),
        fields_at(rest) == Some(more),
    ensures
        fields_at(field_line(key, body) + rest) == Some(seq![(key, value)] + more),
{
    lemma_field_line(key, body, value, rest);
    reveal_strlit("    ");
    reveal_strlit("}");
    let text = field_line(key, body) + rest;
    assert(text[0] == ' ');
    assert("}"@[0] == '}');
}

/// The keys of a record are keys.
proof fn lemma_keys()
    ensures
        is_key("repoName"@),
        is_key("repoOwner"@),
        is_key("repoUrl"@),
        is_key("mainUrl"@),
        is_key("created"@),
        is_key("starred"@),
        is_key("description"@),
{
    reveal_strlit("repoName");
    reveal_strlit("repoOwner");
    reveal_strlit("repoUrl");
    reveal_strlit("mainUrl");
    reveal_strlit("created");
    reveal_strlit("starred");
    reveal_strlit("description");
}

/// A text that opens a record holds the fields of what follows the opening.
proof fn lemma_opened(body: Seq<char>)
    ensures
        record_fields("{\n"@ + body) == fields_at(body),
{
    reveal_strlit("{\n");
    let open = "{\n"@;
    let text = open + body;
    assert(open =~= text.subrange(0, open.len() as int));
    assert(text.skip(open.len() as int) =~= body);
}

/// Nothing but the closing brace holds no field.
proof fn lemma_closed()
    ensures
        fields_at("}"@) == Some(Seq::<ReadField>::empty()),
{
}

/// The text of a record, with the lines grouped from the end.
proof fn lemma_record_text_grouped(edge: EdgeView)
    ensures
        record_text(edge) == "{\n"@ + (field_line("repoName"@, edge.name) + (field_line(
            "repoOwner"@,
            edge.owner,
        ) + (field_line("repoUrl"@, edge.url) + (field_line(
            "mainUrl"@,
            or_empty(edge.homepage_url),
        ) + (field_line("created"@, edge.created_at) + (field_line("starred"@, edge.starred_at) + (
        field_line("description"@, escaped_text(or_empty(edge.description))) + "}"@))))))),
{
    let l1 = field_line("repoName"@, edge.name);
    let l2 = field_line("repoOwner"@, edge.owner);
    let l3 = field_line("repoUrl"@, edge.url);
    let l4 = field_line("mainUrl"@, or_empty(edge.homepage_url));
    let l5 = field_line("created"@, edge.created_at);
    let l6 = field_line("starred"@, edge.starred_at);
    let l7 = field_line("description"@, escaped_text(or_empty(edge.description)));
    lemma_grouped("{\n"@, l1, l2, l3, l4, l5, l6, l7, "}"@);
}

/// Nine texts, one after the other, grouped from the front or from the end.
proof fn lemma_grouped(
    a: Seq<char>,
    b: Seq<char>,
    c: Seq<char>,
    d: Seq<char>,
    e: Seq<char>,
    f: Seq<char>,
    g: Seq<char>,
    h: Seq<char>,
    i: Seq<char>,
)
    ensures
        a + b + c + d + e + f + g + h + i == a + (b + (c + (d + (e + (f + (g + (h + i))))))),
{
    assert(a + b + c + d + e + f + g + h + i =~= a + (b + (c + (d + (e + (f + (g + (h
        + i))))))));
}

/// A record holds exactly its seven fields, each as a string literal that
/// denotes the value of the field: read back, the text of the record of
/// `edge` gives the seven keys in their order, each with the value that
/// `edge` has for it, and the empty string for a home page or a description
/// that is absent. This holds of every edge whose record can be read back
/// at all.
pub proof fn lemma_record_reads_back(edge: EdgeView)
    requires
        renders_faithfully(edge),
    ensures
        record_fields(record_text(edge)) == Some(expected_fields(edge)),
{
    lemma_keys();
    let description = or_empty(edge.description);
    let homepage = or_empty(edge.homepage_url);
    lemma_escape_round_trip(description);
    let fields = expected_fields(edge);
    let close = "}"@;
    lemma_closed();

    let t7 = field_line("description"@, escaped_text(description)) + close;
    let f7 = seq![("description"@, description)];
    lemma_fields_after("description"@, escaped_text(description), description, close, Seq::empty());
    assert(seq![("description"@, description)] + Seq::<ReadField>::empty() =~= f7);
    assert(fields_at(t7) == Some(f7));

    let t6 = field_line("starred"@, edge.starred_at) + t7;
    let f6 = seq![("starred"@, edge.starred_at)] + f7;
    lemma_fields_after("starred"@, edge.starred_at, edge.starred_at, t7, f7);
    assert(fields_at(t6) == Some(f6));

    let t5 = field_line("created"@, edge.created_at) + t6;
    let f5 = seq![("created"@, edge.created_at)] + f6;
    lemma_fields_after("created"@, edge.created_at, edge.created_at, t6, f6);
    assert(fields_at(t5) == Some(f5));

    let t4 = field_line("mainUrl"@, homepage) + t5;
    let f4 = seq![("mainUrl"@, homepage)] + f5;
    lemma_fields_after("mainUrl"@, homepage, homepage, t5, f5);
    assert(fields_at(t4) == Some(f4));

    let t3 = field_line("repoUrl"@, edge.url) + t4;
    let f3 = seq![("repoUrl"@, edge.url)] + f4;
    lemma_fields_after("repoUrl"@, edge.url, edge.url, t4, f4);
    assert(fields_at(t3) == Some(f3));

    let t2 = field_line("repoOwner"@, edge.owner) + t3;
    let f2 = seq![("repoOwner"@, edge.owner)] + f3;
    lemma_fields_after("repoOwner"@, edge.owner, edge.owner, t3, f3);
    assert(fields_at(t2) == Some(f2));

    let t1 = field_line("repoName"@, edge.name) + t2;
    let f1 = seq![("repoName"@, edge.name)] + f2;
    lemma_fields_after("repoName"@, edge.name, edge.name, t2, f2);
    assert(fields_at(t1) == Some(f1));

    lemma_record_text_grouped(edge);
    lemma_opened(t1);
    assert(f1 =~= fields);
}

/// A home page or a description that is absent is written as an empty
/// string: the field stands in the record, and its literal denotes the
/// string without characters.
pub proof fn lemma_absent_is_empty(edge: EdgeView)
    requires
        renders_faithfully(edge),
    ensures
        record_fields(record_text(edge)) matches Some(fields) && fields.len() == 7 && ({
            &&& fields[3].0 == "mainUrl"@
            &&& (edge.homepage_url is None ==> fields[3].1 == Seq::<char>::empty())
            &&& fields[6].0 == "description"@
            &&& (edge.description is None ==> fields[6].1 == Seq::<char>::empty())
        }),
{
    lemma_record_reads_back(edge);
}

} // verus!
