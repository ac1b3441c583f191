//! The rules by which a double-quoted string of the Nix language is read,
//! as far as they decide what the text of a record means.

use vstd::prelude::*;

verus! {

/// The character that a backslash and `c` stand for.
pub open spec fn unescaped(c: char) -> char {
    if c == 'n' {
        '\n'
    } else if c == 'r' {
        '\r'
    } else if c == 't' {
        '\t'
    } else {
        c
    }
}

/// `first` in front of the value that `read` holds, where it holds one.
pub open spec fn with_first(first: char, read: Option<(Seq<char>, Seq<char>)>) -> Option<
    (Seq<char>, Seq<char>),
> {
    match read {
        Some((value, rest)) => Some((seq![first] + value, rest)),
        None => None,
    }
}

/// Reads a string literal whose opening quote has just been passed: the
/// string that the literal denotes, and the text after its closing quote.
/// `None` where `text` does not continue a plain literal.
///
/// The literal ends at the first double quote that no backslash escapes. A
/// backslash and the character after it stand for one character: `n`, `r`
/// and `t` name the line feed, the carriage return and the tab, any other
/// character stands for itself. A `${` that no backslash escapes opens an
/// interpolation, which is no part of a plain literal. A carriage return
/// that is written as itself is read as a line feed, together with a line
/// feed that follows it. Every other character stands for itself.
pub open spec fn literal_at(text: Seq<char>) -> Option<(Seq<char>, Seq<char>)>
    decreases text.len(),
{
    if text.len() == 0 {
        None
    } else if text[0] == '"' {
        Some((Seq::empty(), text.skip(1)))
    } else if text[0] == '\\' {
        if text.len() < 2 {
            None
        } else {
            with_first(unescaped(text[1]), literal_at(text.skip(2)))
        }
    } else if text[0] == '$' && text.len() > 1 && text[1] == '{' {
        None
    } else if text[0] == '\r' {
        if text.len() > 1 && text[1] == '\n' {
            with_first('\n', literal_at(text.skip(2)))
        } else {
            with_first('\n', literal_at(text.skip(1)))
        }
    } else {
        with_first(text[0], literal_at(text.skip(1)))
    }
}

/// The string that `body` denotes when it stands between two double
/// quotes, or `None` where the literal would not end with the second of
/// them.
pub open spec fn literal_value(body: Seq<char>) -> Option<Seq<char>> {
    match literal_at(body + seq!['"']) {
        Some((value, rest)) => if rest.len() == 0 {
            Some(value)
        } else {
            None
        },
        None => None,
    }
}

/// Whether `text`, written between double quotes as it is, denotes itself.
pub open spec fn reads_as_written(text: Seq<char>) -> bool {
    literal_value(text) == Some(text)
}

/// Whether the character at `i` can be written as it is: it is no
/// backslash, no double quote, no carriage return, and no `$` before `{`.
pub open spec fn plain_at(text: Seq<char>, i: int) -> bool {
    &&& text[i] != '\\'
    &&& text[i] != '"'
    &&& text[i] != '\r'
    &&& !(text[i] == '$' && i + 1 < text.len() && text[i + 1] == '{')
}

/// Whether every character of `text` can be written as it is.
pub open spec fn is_plain(text: Seq<char>) -> bool {
    forall|i: int| 0 <= i < text.len() ==> #[trigger] plain_at(text, i)
}

/// What `read` holds, with `more` after the text that it leaves.
pub open spec fn with_more(read: Option<(Seq<char>, Seq<char>)>, more: Seq<char>) -> Option<
    (Seq<char>, Seq<char>),
> {
    match read {
        Some((value, rest)) => Some((value, rest + more)),
        None => None,
    }
}

/// What is read from a text does not depend on what follows the closing
/// quote: more text after it is more text left over.
pub proof fn lemma_literal_then(text: Seq<char>, more: Seq<char>)
    requires
        literal_at(text) is Some,
    ensures
        literal_at(text + more) == with_more(literal_at(text), more),
    decreases text.len(),
{
    let whole = text + more;
    assert(whole[0] == text[0]);
    if text[0] == '"' {
        assert(whole.skip(1) =~= text.skip(1) + more);
    } else if text[0] == '\\' {
        assert(whole[1] == text[1]);
        assert(whole.skip(2) =~= text.skip(2) + more);
        lemma_literal_then(text.skip(2), more);
    } else if text[0] == '\r' && text.len() > 1 && text[1] == '\n' {
        assert(whole[1] == text[1]);
        assert(whole.skip(2) =~= text.skip(2) + more);
        lemma_literal_then(text.skip(2), more);
    } else {
        assert(text.len() > 1) by {
            if text.len() == 1 {
                assert(literal_at(text.skip(1)) is None);
            }
        }
        assert(whole[1] == text[1]);
        assert(whole.skip(1) =~= text.skip(1) + more);
        lemma_literal_then(text.skip(1), more);
    }
}

/// A body that denotes `value` between its quotes denotes it before any
/// text: reading `body`, a double quote and `rest` gives `value` and leaves
/// `rest`.
pub proof fn lemma_literal_before(body: Seq<char>, value: Seq<char>, rest: Seq<char>)
    requires
        literal_value(body) == Some(value),
    ensures
        literal_at(body + seq!['"'] + rest) == Some((value, rest)),
{
    lemma_literal_then(body + seq!['"'], rest);
    assert(Seq::<char>::empty() + rest =~= rest);
}

/// A text of plain characters, followed by the closing quote, is read as
/// itself.
proof fn lemma_plain_at(text: Seq<char>, rest: Seq<char>)
    requires
        is_plain(text),
    ensures
        literal_at(text + seq!['"'] + rest) == Some((text, rest)),
    decreases text.len(),
{
    let whole = text + seq!['"'] + rest;
    if text.len() == 0 {
        assert(whole[0] == '"');
        assert(whole.skip(1) =~= rest);
        assert(text =~= Seq::<char>::empty());
    } else {
        let tail = text.skip(1);
        assert(is_plain(tail)) by {
            assert forall|i: int| 0 <= i < tail.len() implies #[trigger] plain_at(tail, i) by {
                assert(plain_at(text, i + 1));
            }
        }
        lemma_plain_at(tail, rest);
        assert(plain_at(text, 0));
        assert(whole[0] == text[0]);
        assert(whole.skip(1) =~= tail + seq!['"'] + rest);
        if text.len() > 1 {
            assert(whole[1] == text[1]);
        } else {
            assert(whole[1] == '"');
        }
        assert(seq![text[0]] + tail =~= text);
    }
}

/// A text without backslash, double quote, carriage return and `${` reads
/// as it is written.
pub proof fn lemma_plain_reads_as_written(text: Seq<char>)
    requires
        is_plain(text),
    ensures
        reads_as_written(text),
{
    lemma_plain_at(text, Seq::empty());
    assert(text + seq!['"'] + Seq::<char>::empty() =~= text + seq!['"']);
}

} // verus!
