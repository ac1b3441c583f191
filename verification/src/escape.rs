//! Escaping of text that is written between the double quotes of a Nix
//! string.

use crate::literal::{literal_at, literal_value};
use crate::text::{chars_of, replace_all, replaced, string_of};
use vstd::prelude::*;

verus! {

/// `s` as it is written inside a string literal: every backslash is doubled,
/// then every `${` gets a backslash in front, then every double quote gets a
/// backslash in front. The order keeps a backslash that the second or third
/// step adds from being doubled by the first.
pub open spec fn escaped_text(s: Seq<char>) -> Seq<char> {
    replaced(
        replaced(
            replaced(s, seq!['\\'], seq!['\\', '\\']),
            seq!['$', '{'],
            seq!['\\', '$', '{'],
        ),
        seq!['"'],
        seq!['\\', '"'],
    )
}

/// Escapes `text` for use inside a string literal.
pub fn escape(text: &str) -> (escaped: String)
    ensures
        escaped@ == escaped_text(text@),
{
    let backslash = vec!['\\'];
    let doubled = vec!['\\', '\\'];
    let opening = vec!['$', '{'];
    let guarded_opening = vec!['\\', '$', '{'];
    let quote = vec!['"'];
    let guarded_quote = vec!['\\', '"'];
    proof {
        assert(backslash@ =~= seq!['\\']);
        assert(doubled@ =~= seq!['\\', '\\']);
        assert(opening@ =~= seq!['$', '{']);
        assert(guarded_opening@ =~= seq!['\\', '$', '{']);
        assert(quote@ =~= seq!['"']);
        assert(guarded_quote@ =~= seq!['\\', '"']);
    }
    let chars = chars_of(text);
    let first = replace_all(&chars, &backslash, &doubled);
    let second = replace_all(&first, &opening, &guarded_opening);
    let third = replace_all(&second, &quote, &guarded_quote);
    string_of(&third)
}

/// What the first character of `s` becomes when `s` is escaped: a
/// backslash and a double quote get a backslash in front, and so does a `$`
/// that stands before `{`; any other character stays as it is.
pub open spec fn escaped_head(s: Seq<char>) -> Seq<char>
    recommends
        s.len() > 0,
{
    if s[0] == '\\' {
        seq!['\\', '\\']
    } else if s[0] == '"' {
        seq!['\\', '"']
    } else if s[0] == '$' && s.len() > 1 && s[1] == '{' {
        seq!['\\', '$']
    } else {
        seq![s[0]]
    }
}

/// `s` escaped character by character, in one pass.
pub open spec fn escaped_by_char(s: Seq<char>) -> Seq<char>
    decreases s.len(),
{
    if s.len() == 0 {
        Seq::empty()
    } else {
        escaped_head(s) + escaped_by_char(s.skip(1))
    }
}

/// Replacing a single character goes character by character.
proof fn lemma_replaced_char(s: Seq<char>, c: char, to: Seq<char>)
    requires
        s.len() > 0,
    ensures
        replaced(s, seq![c], to) == (if s[0] == c {
            to
        } else {
            seq![s[0]]
        }) + replaced(s.skip(1), seq![c], to),
{
    let from = seq![c];
    assert(from.len() == 1);
    if s[0] == c {
        assert(s.subrange(0, 1) =~= from);
    } else {
        assert(s.subrange(0, 1)[0] == s[0]);
    }
}

/// Replacing a single character in `a + b` replaces it in `a` and in `b`.
proof fn lemma_replaced_char_concat(a: Seq<char>, b: Seq<char>, c: char, to: Seq<char>)
    ensures
        replaced(a + b, seq![c], to) == replaced(a, seq![c], to) + replaced(b, seq![c], to),
    decreases a.len(),
{
    if a.len() == 0 {
        assert(a + b =~= b);
        assert(replaced(a, seq![c], to) =~= Seq::<char>::empty());
        assert(replaced(a, seq![c], to) + replaced(b, seq![c], to) =~= replaced(b, seq![c], to));
    } else {
        lemma_replaced_char(a, c, to);
        lemma_replaced_char(a + b, c, to);
        assert((a + b).skip(1) =~= a.skip(1) + b);
        lemma_replaced_char_concat(a.skip(1), b, c, to);
        let head = if a[0] == c {
            to
        } else {
            seq![a[0]]
        };
        assert(replaced(a + b, seq![c], to) =~= head + (replaced(a.skip(1), seq![c], to)
            + replaced(b, seq![c], to)));
        assert(replaced(a + b, seq![c], to) =~= replaced(a, seq![c], to) + replaced(
            b,
            seq![c],
            to,
        ));
    }
}

/// `s` with every backslash doubled.
spec fn doubled(s: Seq<char>) -> Seq<char> {
    replaced(s, seq!['\\'], seq!['\\', '\\'])
}

/// `s` after the first two steps of escaping, character by character.
spec fn guarded(s: Seq<char>) -> Seq<char>
    decreases s.len(),
{
    if s.len() == 0 {
        Seq::empty()
    } else {
        (if s[0] == '\\' {
            seq!['\\', '\\']
        } else if s[0] == '$' && s.len() > 1 && s[1] == '{' {
            seq!['\\', '$']
        } else {
            seq![s[0]]
        }) + guarded(s.skip(1))
    }
}

/// Doubling the backslashes keeps the first character.
proof fn lemma_doubled_head(s: Seq<char>)
    requires
        s.len() > 0,
    ensures
        doubled(s).len() > 0,
        doubled(s)[0] == s[0],
        doubled(s) == (if s[0] == '\\' {
            seq!['\\', '\\']
        } else {
            seq![s[0]]
        }) + doubled(s.skip(1)),
{
    lemma_replaced_char(s, '\\', seq!['\\', '\\']);
}

/// The second step, applied to the result of the first, guards every `${`
/// of `s` and touches nothing else.
proof fn lemma_second_pass(s: Seq<char>)
    ensures
        replaced(doubled(s), seq!['$', '{'], seq!['\\', '$', '{']) == guarded(s),
    decreases s.len(),
{
    let from = seq!['$', '{'];
    let to = seq!['\\', '$', '{'];
    assert(from.len() == 2);
    if s.len() == 0 {
        assert(doubled(s) =~= Seq::<char>::empty());
    } else {
        lemma_doubled_head(s);
        let rest = s.skip(1);
        let d_rest = doubled(rest);
        lemma_second_pass(rest);
        if rest.len() > 0 {
            lemma_doubled_head(rest);
        } else {
            assert(d_rest =~= Seq::<char>::empty());
        }
        if s[0] == '\\' {
            let d = seq!['\\', '\\'] + d_rest;
            assert(d.subrange(0, 2)[0] == '\\');
            assert(d.skip(1) =~= seq!['\\'] + d_rest);
            let e = seq!['\\'] + d_rest;
            if e.len() >= 2 {
                assert(e.subrange(0, 2)[0] == '\\');
            }
            assert(e.skip(1) =~= d_rest);
            assert(replaced(e, from, to) =~= seq!['\\'] + replaced(d_rest, from, to)) by {
                if e.len() < 2 {
                    assert(d_rest =~= Seq::<char>::empty());
                }
            }
            assert(replaced(d, from, to) =~= seq!['\\', '\\'] + replaced(d_rest, from, to));
        } else if s[0] == '$' && s.len() > 1 && s[1] == '{' {
            let rest2 = s.skip(2);
            assert(rest.skip(1) =~= rest2);
            lemma_second_pass(rest2);
            let d = seq!['$'] + d_rest;
            assert(d_rest == seq!['{'] + doubled(rest2));
            assert(d.subrange(0, 2) =~= from);
            assert(d.skip(2) =~= doubled(rest2));
            assert(guarded(rest) =~= seq!['{'] + guarded(rest2));
            assert(replaced(d, from, to) =~= seq!['\\', '$'] + guarded(rest));
        } else {
            let d = seq![s[0]] + d_rest;
            assert(d.skip(1) =~= d_rest);
            if d.len() >= 2 {
                assert(d.subrange(0, 2)[0] == s[0]);
                assert(d.subrange(0, 2)[1] == d_rest[0]);
                assert(d.subrange(0, 2) != from);
            } else {
                assert(d_rest =~= Seq::<char>::empty());
            }
            assert(replaced(d, from, to) =~= seq![s[0]] + replaced(d_rest, from, to));
        }
    }
}

/// The third step, applied to the result of the first two, gives the
/// character-by-character form.
proof fn lemma_third_pass(s: Seq<char>)
    ensures
        replaced(guarded(s), seq!['"'], seq!['\\', '"']) == escaped_by_char(s),
    decreases s.len(),
{
    let to = seq!['\\', '"'];
    if s.len() == 0 {
    } else {
        let head = if s[0] == '\\' {
            seq!['\\', '\\']
        } else if s[0] == '$' && s.len() > 1 && s[1] == '{' {
            seq!['\\', '$']
        } else {
            seq![s[0]]
        };
        lemma_third_pass(s.skip(1));
        lemma_replaced_char_concat(head, guarded(s.skip(1)), '"', to);
        lemma_replaced_char(head, '"', to);
        if head.len() == 2 {
            lemma_replaced_char(head.skip(1), '"', to);
            assert(head.skip(1).skip(1) =~= Seq::<char>::empty());
            assert(replaced(head, seq!['"'], to) =~= head);
        } else {
            assert(head.skip(1) =~= Seq::<char>::empty());
            assert(replaced(head, seq!['"'], to) =~= escaped_head(s));
        }
    }
}

/// The three steps of escaping, in their order, do what one pass over the
/// characters does: nothing that a later step adds is escaped again.
pub proof fn lemma_escaped_by_char(s: Seq<char>)
    ensures
        escaped_text(s) == escaped_by_char(s),
{
    lemma_second_pass(s);
    lemma_third_pass(s);
}

/// The escaped form of a text that is not empty starts with a backslash or
/// with the first character of the text.
proof fn lemma_escaped_first(s: Seq<char>)
    requires
        s.len() > 0,
    ensures
        escaped_by_char(s).len() > 0,
        escaped_by_char(s)[0] == '\\' || escaped_by_char(s)[0] == s[0],
        escaped_by_char(s)[0] == '{' ==> s[0] == '{',
{
}

/// The escaped form of a text, followed by the closing quote, is read as
/// the text.
proof fn lemma_round_trip_at(s: Seq<char>, rest: Seq<char>)
    requires
        !s.contains('\r'),
    ensures
        literal_at(escaped_by_char(s) + seq!['"'] + rest) == Some((s, rest)),
    decreases s.len(),
{
    let whole = escaped_by_char(s) + seq!['"'] + rest;
    if s.len() == 0 {
        assert(whole[0] == '"');
        assert(whole.skip(1) =~= rest);
        assert(s =~= Seq::<char>::empty());
    } else {
        let tail = s.skip(1);
        let e_tail = escaped_by_char(tail);
        assert(!tail.contains('\r')) by {
            if tail.contains('\r') {
                let i = choose|i: int| 0 <= i < tail.len() && tail[i] == '\r';
                assert(s[i + 1] == '\r');
            }
        }
        assert(s[0] != '\r');
        lemma_round_trip_at(tail, rest);
        assert(s =~= seq![s[0]] + tail);
        if s[0] == '\\' || s[0] == '"' || (s[0] == '$' && s.len() > 1 && s[1] == '{') {
            assert(whole[0] == '\\');
            assert(whole[1] == s[0]);
            assert(whole.skip(2) =~= e_tail + seq!['"'] + rest);
        } else {
            assert(whole[0] == s[0]);
            assert(whole.skip(1) =~= e_tail + seq!['"'] + rest);
            if tail.len() > 0 {
                lemma_escaped_first(tail);
                assert(whole[1] == e_tail[0]);
            } else {
                assert(whole[1] == '"');
            }
        }
    }
}

/// Escaping loses nothing: the escaped form of a text, read by the rules of
/// a string literal, is the text again. This holds of every text that holds
/// no carriage return; backslashes, double quotes and `${` may stand in it
/// anywhere.
pub proof fn lemma_escape_round_trip(s: Seq<char>)
    requires
        !s.contains('\r'),
    ensures
        literal_value(escaped_text(s)) == Some(s),
{
    lemma_escaped_by_char(s);
    lemma_round_trip_at(s, Seq::empty());
    assert(escaped_by_char(s) + seq!['"'] + Seq::<char>::empty() =~= escaped_by_char(s) + seq!['"']);
}

} // verus!
