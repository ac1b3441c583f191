//! One starred repository, and one page of them.

use vstd::prelude::*;

verus! {

/// One entry of the list of starred repositories: the repository and the
/// moment it was starred. Home page and description may be absent.
#[derive(Clone, Debug, PartialEq, Eq)]
pub struct StarredRepositoryEdge {
    pub starred_at: String,
    pub owner: String,
    pub name: String,
    pub url: String,
    pub homepage_url: Option<String>,
    pub created_at: String,
    pub description: Option<String>,
}

/// The mathematical value of a [`StarredRepositoryEdge`].
pub struct EdgeView {
    pub starred_at: Seq<char>,
    pub owner: Seq<char>,
    pub name: Seq<char>,
    pub url: Seq<char>,
    pub homepage_url: Option<Seq<char>>,
    pub created_at: Seq<char>,
    pub description: Option<Seq<char>>,
}

/// The characters of a string that may be absent.
pub open spec fn optional_text(text: Option<String>) -> Option<Seq<char>> {
    match text {
        Some(s) => Some(s@),
        None => None,
    }
}

/// The characters of `text`, or none where it is absent.
pub open spec fn or_empty(text: Option<Seq<char>>) -> Seq<char> {
    match text {
        Some(s) => s,
        None => Seq::empty(),
    }
}

impl View for StarredRepositoryEdge {
    type V = EdgeView;

    open spec fn view(&self) -> EdgeView {
        EdgeView {
            starred_at: self.starred_at@,
            owner: self.owner@,
            name: self.name@,
            url: self.url@,
            homepage_url: optional_text(self.homepage_url),
            created_at: self.created_at@,
            description: optional_text(self.description),
        }
    }
}

impl DeepView for StarredRepositoryEdge {
    type V = EdgeView;

    open spec fn deep_view(&self) -> EdgeView {
        self@
    }
}

/// One page of starred repositories, in the order in which the API gave
/// them, with what the API said about the pages after it.
#[derive(Clone, Debug, PartialEq, Eq)]
pub struct Page {
    pub edges: Vec<StarredRepositoryEdge>,
    pub has_next_page: bool,
    pub next_cursor: Option<String>,
}

/// The mathematical value of a [`Page`].
pub struct PageView {
    pub edges: Seq<EdgeView>,
    pub has_next_page: bool,
    pub next_cursor: Option<Seq<char>>,
}

impl View for Page {
    type V = PageView;

    open spec fn view(&self) -> PageView {
        PageView {
            edges: self.edges.deep_view(),
            has_next_page: self.has_next_page,
            next_cursor: optional_text(self.next_cursor),
        }
    }
}

/// A copy of a string that may be absent.
pub fn clone_optional(text: &Option<String>) -> (copy: Option<String>)
    ensures
        optional_text(copy) == optional_text(*text),
{
    match text {
        Some(s) => Some(s.clone()),
        None => None,
    }
}

} // verus!
