//! Reading the two responses of the API: the login of the authenticated
//! user, and one page of starred repositories.

use crate::edge::{EdgeView, Page, PageView, StarredRepositoryEdge};
use crate::json::{child, Json, JsonView};
use crate::parse::{parse, parsed};
use vstd::prelude::*;

verus! {

/// A field that a page response must hold.
#[derive(Clone, Copy, Debug, PartialEq, Eq, Structural)]
pub enum Field {
    /// `pageInfo.hasNextPage`, a boolean.
    HasNextPage,
    /// `edges`, an array.
    Edges,
    /// `starredAt` of an edge, a string.
    StarredAt,
    /// `node.owner.login` of an edge, a string.
    OwnerLogin,
    /// `node.name` of an edge, a string.
    Name,
    /// `node.url` of an edge, a string.
    Url,
    /// `node.createdAt` of an edge, a string.
    CreatedAt,
}

/// Why a page response could not be read.
#[derive(Clone, Copy, Debug, PartialEq, Eq, Structural)]
pub enum ApiError {
    /// The body is not a JSON document.
    NotJson,
    /// The list of starred repositories lacks this field, or holds a value
    /// of another kind there.
    Missing(Field),
    /// The edge at `index` lacks this field, or holds a value of another
    /// kind there.
    MissingInEdge { index: usize, field: Field },
}

/// The login that an identity response names: the string at
/// `data.viewer.login`, if it is there and not empty.
pub open spec fn login_of(doc: JsonView) -> Option<Seq<char>> {
    match doc.at("data"@).at("viewer"@).at("login"@).text() {
        Some(login) => if login.len() > 0 {
            Some(login)
        } else {
            None
        },
        None => None,
    }
}

/// The login named by the response with this parsed body.
pub open spec fn login_of_response(body: Option<JsonView>) -> Option<Seq<char>> {
    match body {
        Some(doc) => login_of(doc),
        None => None,
    }
}

/// The edge that `item` describes, or the first required field, in the
/// order `starredAt`, `node.owner.login`, `node.name`, `node.url`,
/// `node.createdAt`, that is not a string. A home page or a description
/// that is not a string is absent.
pub open spec fn edge_of(item: JsonView) -> Result<EdgeView, Field> {
    let node = item.at("node"@);
    let starred_at = item.at("starredAt"@).text();
    let owner = node.at("owner"@).at("login"@).text();
    let name = node.at("name"@).text();
    let url = node.at("url"@).text();
    let created_at = node.at("createdAt"@).text();
    if starred_at is None {
        Err(Field::StarredAt)
    } else if owner is None {
        Err(Field::OwnerLogin)
    } else if name is None {
        Err(Field::Name)
    } else if url is None {
        Err(Field::Url)
    } else if created_at is None {
        Err(Field::CreatedAt)
    } else {
        Ok(
            EdgeView {
                starred_at: starred_at->0,
                owner: owner->0,
                name: name->0,
                url: url->0,
                homepage_url: node.at("homepageUrl"@).text(),
                created_at: created_at->0,
                description: node.at("description"@).text(),
            },
        )
    }
}

/// The edges that `items` describe, in order, or the failure of the first
/// item that describes none.
pub open spec fn edges_of(items: Seq<JsonView>) -> Result<Seq<EdgeView>, ApiError>
    decreases items.len(),
{
    if items.len() == 0 {
        Ok(Seq::empty())
    } else {
        match edges_of(items.drop_last()) {
            Err(error) => Err(error),
            Ok(edges) => match edge_of(items.last()) {
                Ok(edge) => Ok(edges.push(edge)),
                Err(field) => Err(
                    ApiError::MissingInEdge { index: (items.len() - 1) as usize, field },
                ),
            },
        }
    }
}

/// The page that a document describes. The list of starred repositories
/// stands at `data.user.starredRepositories`. Its `pageInfo.hasNextPage` is
/// read first, then `edges`, then each edge in order; the first of them
/// that is missing decides the error. `pageInfo.endCursor` is the cursor
/// of the next page where it is a string, and absent otherwise.
pub open spec fn page_of(doc: JsonView) -> Result<PageView, ApiError> {
    let stars = doc.at("data"@).at("user"@).at("starredRepositories"@);
    let info = stars.at("pageInfo"@);
    match info.at("hasNextPage"@).boolean() {
        None => Err(ApiError::Missing(Field::HasNextPage)),
        Some(has_next_page) => match stars.at("edges"@).items() {
            None => Err(ApiError::Missing(Field::Edges)),
            Some(items) => match edges_of(items) {
                Err(error) => Err(error),
                Ok(edges) => Ok(
                    PageView { edges, has_next_page, next_cursor: info.at("endCursor"@).text() },
                ),
            },
        },
    }
}

/// The page described by the response with this parsed body.
pub open spec fn page_of_response(body: Option<JsonView>) -> Result<PageView, ApiError> {
    match body {
        Some(doc) => page_of(doc),
        None => Err(ApiError::NotJson),
    }
}

/// Whether `result` is the exec form of `expected`.
pub open spec fn page_matches(
    result: Result<Page, ApiError>,
    expected: Result<PageView, ApiError>,
) -> bool {
    match result {
        Ok(page) => expected == Ok::<PageView, ApiError>(page@),
        Err(error) => expected == Err::<PageView, ApiError>(error),
    }
}

/// Whether `result` is the exec form of `expected`.
pub open spec fn login_matches(result: Option<String>, expected: Option<Seq<char>>) -> bool {
    match result {
        Some(login) => expected == Some(login@),
        None => expected is None,
    }
}

/// A copy of the string held by a value that may be missing.
fn text_of(found: Option<&Json>) -> (text: Option<String>)
    ensures
        crate::edge::optional_text(text) == crate::json::value_of(found).text(),
{
    match found {
        Some(value) => match value.as_text() {
            Some(s) => Some(s.clone()),
            None => None,
        },
        None => None,
    }
}

/// Reads the login of the authenticated user from an identity document.
pub fn login_from_document(doc: &Json) -> (login: Option<String>)
    ensures
        login_matches(login, login_of(doc@)),
        login matches Some(name) ==> name@.len() > 0,
{
    let viewer = child(doc.get("data"), "viewer");
    match text_of(child(viewer, "login")) {
        Some(login) => if !login.as_str().is_empty() {
            Some(login)
        } else {
            None
        },
        None => None,
    }
}

/// Reads the login of the authenticated user from the body of an identity
/// response. There is none where the body is not JSON, or names no login.
pub fn login_from_response(body: &str) -> (login: Option<String>)
    ensures
        login_matches(login, login_of_response(parsed(body@))),
        login matches Some(name) ==> name@.len() > 0,
{
    match parse(body) {
        Some(doc) => login_from_document(&doc),
        None => None,
    }
}

/// Reads one edge.
pub fn edge_from_document(item: &Json) -> (edge: Result<StarredRepositoryEdge, Field>)
    ensures
        match edge {
            Ok(e) => edge_of(item@) == Ok::<EdgeView, Field>(e@),
            Err(field) => edge_of(item@) == Err::<EdgeView, Field>(field),
        },
{
    let node = item.get("node");
    let starred_at = match text_of(item.get("starredAt")) {
        Some(s) => s,
        None => { return Err(Field::StarredAt); },
    };
    let owner = match text_of(child(child(node, "owner"), "login")) {
        Some(s) => s,
        None => { return Err(Field::OwnerLogin); },
    };
    let name = match text_of(child(node, "name")) {
        Some(s) => s,
        None => { return Err(Field::Name); },
    };
    let url = match text_of(child(node, "url")) {
        Some(s) => s,
        None => { return Err(Field::Url); },
    };
    let homepage_url = text_of(child(node, "homepageUrl"));
    let created_at = match text_of(child(node, "createdAt")) {
        Some(s) => s,
        None => { return Err(Field::CreatedAt); },
    };
    let description = text_of(child(node, "description"));
    Ok(StarredRepositoryEdge { starred_at, owner, name, url, homepage_url, created_at, description })
}

/// Reads the edges of a page, in order, up to the first that cannot be read.
pub fn edges_from_documents(items: &Vec<Json>) -> (edges: Result<Vec<StarredRepositoryEdge>, ApiError>)
    ensures
        match edges {
            Ok(list) => edges_of(items.deep_view()) == Ok::<Seq<EdgeView>, ApiError>(
                list.deep_view(),
            ),
            Err(error) => edges_of(items.deep_view()) == Err::<Seq<EdgeView>, ApiError>(error),
        },
{
    let mut edges: Vec<StarredRepositoryEdge> = Vec::new();
    let mut i: usize = 0;
    assert(items.deep_view().take(0) =~= Seq::<JsonView>::empty());
    assert(edges.deep_view() =~= Seq::<EdgeView>::empty());
    while i < items.len()
        invariant
            i <= items.len(),
            edges_of(items.deep_view().take(i as int)) == Ok::<Seq<EdgeView>, ApiError>(
                edges.deep_view(),
            ),
        decreases items.len() - i,
    {
        let ghost seen = items.deep_view().take(i + 1);
        assert(seen.drop_last() =~= items.deep_view().take(i as int));
        assert(seen.last() == items[i as int]@);
        match edge_from_document(&items[i]) {
            Ok(edge) => {
                let ghost before = edges.deep_view();
                edges.push(edge);
                assert(edges.deep_view() =~= before.push(edge@));
            },
            Err(field) => {
                proof {
                    assert(edges_of(seen) == Err::<Seq<EdgeView>, ApiError>(
                        ApiError::MissingInEdge { index: i, field },
                    ));
                    lemma_edges_fail_later(items.deep_view(), i + 1);
                }
                return Err(ApiError::MissingInEdge { index: i, field });
            },
        }
        i += 1;
    }
    assert(items.deep_view().take(items.len() as int) =~= items.deep_view());
    Ok(edges)
}

/// Reads one page of starred repositories from a page document.
pub fn page_from_document(doc: &Json) -> (page: Result<Page, ApiError>)
    ensures
        page_matches(page, page_of(doc@)),
{
    let stars = child(child(doc.get("data"), "user"), "starredRepositories");
    let info = child(stars, "pageInfo");
    let has_next_page = match child(info, "hasNextPage") {
        Some(value) => match value.as_bool() {
            Some(b) => b,
            None => { return Err(ApiError::Missing(Field::HasNextPage)); },
        },
        None => { return Err(ApiError::Missing(Field::HasNextPage)); },
    };
    let next_cursor = text_of(child(info, "endCursor"));
    let items = match child(stars, "edges") {
        Some(value) => match value.as_items() {
            Some(items) => items,
            None => { return Err(ApiError::Missing(Field::Edges)); },
        },
        None => { return Err(ApiError::Missing(Field::Edges)); },
    };
    match edges_from_documents(items) {
        Ok(edges) => Ok(Page { edges, has_next_page, next_cursor }),
        Err(error) => Err(error),
    }
}

/// Reads one page of starred repositories from the body of a page response.
pub fn page_from_response(body: &str) -> (page: Result<Page, ApiError>)
    ensures
        page_matches(page, page_of_response(parsed(body@))),
{
    match parse(body) {
        Some(doc) => page_from_document(&doc),
        None => Err(ApiError::NotJson),
    }
}

/// A failure among the first `n` items is the failure of the whole list.
proof fn lemma_edges_fail_later(items: Seq<JsonView>, n: int)
    requires
        0 <= n <= items.len(),
        edges_of(items.take(n)) is Err,
    ensures
        edges_of(items) == edges_of(items.take(n)),
    decreases items.len() - n,
{
    if n == items.len() {
        assert(items.take(n) =~= items);
    } else {
        assert(items.take(n + 1).drop_last() =~= items.take(n));
        lemma_edges_fail_later(items, n + 1);
    }
}

} // verus!
