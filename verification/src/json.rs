//! A JSON document as a tree of plain values, and the lookups the export
//! makes in it.

use vstd::prelude::*;

verus! {

/// A JSON value.
///
/// A number is kept as its decimal text. An object keeps its members as a
/// list of pairs; a lookup by key finds the first pair with that key.
#[derive(Debug, PartialEq, Eq)]
pub enum Json {
    Null,
    Bool(bool),
    Number(String),
    Text(String),
    Array(Vec<Json>),
    Object(Vec<(String, Json)>),
}

/// The mathematical value of a [`Json`].
pub enum JsonView {
    Null,
    Bool(bool),
    Number(Seq<char>),
    Text(Seq<char>),
    Array(Seq<JsonView>),
    Object(Seq<(Seq<char>, JsonView)>),
}

impl DeepView for Json {
    type V = JsonView;

    open spec fn deep_view(&self) -> JsonView {
        self@
    }
}

impl View for Json {
    type V = JsonView;

    open spec fn view(&self) -> JsonView
        decreases self,
    {
        match self {
            Json::Null => JsonView::Null,
            Json::Bool(b) => JsonView::Bool(*b),
            Json::Number(n) => JsonView::Number(n@),
            Json::Text(s) => JsonView::Text(s@),
            Json::Array(items) => JsonView::Array(
                Seq::new(
                    items@.len(),
                    |i: int|
                        if 0 <= i < items@.len() {
                            items@[i]@
                        } else {
                            JsonView::Null
                        },
                ),
            ),
            Json::Object(members) => JsonView::Object(
                Seq::new(
                    members@.len(),
                    |i: int|
                        if 0 <= i < members@.len() {
                            (members@[i].0@, members@[i].1@)
                        } else {
                            (Seq::empty(), JsonView::Null)
                        },
                ),
            ),
        }
    }
}

impl JsonView {
    /// The value of the first member of this object whose key is `key`;
    /// `None` if there is none or this is no object.
    pub open spec fn member(self, key: Seq<char>) -> Option<JsonView> {
        match self {
            JsonView::Object(members) => first_named(members, key, 0),
            _ => None,
        }
    }

    /// The member named `key`, or `Null` where [`Self::member`] finds none.
    pub open spec fn at(self, key: Seq<char>) -> JsonView {
        match self.member(key) {
            Some(value) => value,
            None => JsonView::Null,
        }
    }

    /// The characters of this value if it is a string.
    pub open spec fn text(self) -> Option<Seq<char>> {
        match self {
            JsonView::Text(s) => Some(s),
            _ => None,
        }
    }

    /// This value if it is a boolean.
    pub open spec fn boolean(self) -> Option<bool> {
        match self {
            JsonView::Bool(b) => Some(b),
            _ => None,
        }
    }

    /// The elements of this value if it is an array.
    pub open spec fn items(self) -> Option<Seq<JsonView>> {
        match self {
            JsonView::Array(items) => Some(items),
            _ => None,
        }
    }
}

/// The value of the first pair at or after `from` whose key is `key`.
pub open spec fn first_named(
    members: Seq<(Seq<char>, JsonView)>,
    key: Seq<char>,
    from: int,
) -> Option<JsonView>
    decreases members.len() - from,
{
    if from < 0 || from >= members.len() {
        None
    } else if members[from].0 == key {
        Some(members[from].1)
    } else {
        first_named(members, key, from + 1)
    }
}

/// What a lookup result stands for: a missing value reads as `Null`.
pub open spec fn value_of(found: Option<&Json>) -> JsonView {
    match found {
        Some(value) => value@,
        None => JsonView::Null,
    }
}

impl Json {
    /// Looks up the member named `key`.
    pub fn get<'a>(&'a self, key: &str) -> (found: Option<&'a Json>)
        ensures
            match found {
                Some(value) => self@.member(key@) == Some(value@),
                None => self@.member(key@) is None,
            },
            value_of(found) == self@.at(key@),
    {
        match self {
            Json::Object(members) => {
                let wanted = key.to_owned();
                let mut i: usize = 0;
                while i < members.len()
                    invariant
                        i <= members.len(),
                        wanted@ == key@,
                        self@ is Object,
                        self@->Object_0.len() == members@.len(),
                        forall|k: int|
                            0 <= k < members@.len() ==> #[trigger] self@->Object_0[k] == (
                                members@[k].0@,
                                members@[k].1@,
                            ),
                        self@.member(key@) == first_named(self@->Object_0, key@, i as int),
                    decreases members.len() - i,
                {
                    if members[i].0 == wanted {
                        return Some(&members[i].1);
                    }
                    i += 1;
                }
                None
            },
            _ => None,
        }
    }

    /// The string held by this value, if it is one.
    pub fn as_text<'a>(&'a self) -> (text: Option<&'a String>)
        ensures
            match text {
                Some(s) => self@.text() == Some(s@),
                None => self@.text() is None,
            },
    {
        match self {
            Json::Text(s) => Some(s),
            _ => None,
        }
    }

    /// The boolean held by this value, if it is one.
    pub fn as_bool(&self) -> (b: Option<bool>)
        ensures
            b == self@.boolean(),
    {
        match self {
            Json::Bool(b) => Some(*b),
            _ => None,
        }
    }

    /// The elements of this value, if it is an array.
    pub fn as_items<'a>(&'a self) -> (items: Option<&'a Vec<Json>>)
        ensures
            match items {
                Some(v) => self@.items() == Some(v.deep_view()),
                None => self@.items() is None,
            },
    {
        match self {
            Json::Array(items) => {
                assert(self@->Array_0 =~= items.deep_view());
                Some(items)
            },
            _ => None,
        }
    }
}

/// Looks up the member named `key` in a value that may itself be missing.
pub fn child<'a>(parent: Option<&'a Json>, key: &str) -> (found: Option<&'a Json>)
    ensures
        match found {
            Some(value) => value_of(parent).member(key@) == Some(value@),
            None => value_of(parent).member(key@) is None,
        },
        value_of(found) == value_of(parent).at(key@),
{
    match parent {
        Some(value) => value.get(key),
        None => None,
    }
}

} // verus!
