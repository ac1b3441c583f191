//! The two requests that the export sends to the GraphQL API.

use crate::edge::{clone_optional, optional_text};
use crate::json::{Json, JsonView};
use vstd::prelude::*;

verus! {

/// The endpoint to which every request is posted.
pub const API_URL: &'static str = "https://api.github.com/graphql";

/// The query that asks for the login of the authenticated user.
pub const QUERY_WHOAMI: &'static str = "{ viewer { login } }";

/// The query that asks for one page of at most 100 starred repositories of
/// `$login`, after `$cursor`.
pub const QUERY_STARS: &'static str = "query($login: String!, $cursor: String) {
  user(login: $login) {
    starredRepositories(first: 100, after: $cursor) {
      pageInfo {
        endCursor
        hasNextPage
      }
      edges {
        starredAt
        node {
          owner {
            login
            url
          }
          name
          url
          primaryLanguage {
            name
          }
          createdAt
          pushedAt
          description
          homepageUrl
        }
      }
    }
  }
}";

/// The variables of a page query.
#[derive(Clone, Debug, PartialEq, Eq)]
pub struct PageVariables {
    pub login: String,
    pub cursor: Option<String>,
}

/// One request: the bearer token that authorises it, a query document and,
/// for a page query, its variables.
#[derive(Clone, Debug, PartialEq, Eq)]
pub struct ApiRequest {
    pub token: String,
    pub query: String,
    pub variables: Option<PageVariables>,
}

/// The mathematical value of a [`PageVariables`].
pub struct PageVariablesView {
    pub login: Seq<char>,
    pub cursor: Option<Seq<char>>,
}

/// The mathematical value of an [`ApiRequest`].
pub struct ApiRequestView {
    pub token: Seq<char>,
    pub query: Seq<char>,
    pub variables: Option<PageVariablesView>,
}

impl View for PageVariables {
    type V = PageVariablesView;

    open spec fn view(&self) -> PageVariablesView {
        PageVariablesView { login: self.login@, cursor: optional_text(self.cursor) }
    }
}

impl View for ApiRequest {
    type V = ApiRequestView;

    open spec fn view(&self) -> ApiRequestView {
        ApiRequestView {
            token: self.token@,
            query: self.query@,
            variables: match self.variables {
                Some(variables) => Some(variables@),
                None => None,
            },
        }
    }
}

/// The request for the login of the authenticated user.
pub open spec fn identity_request_view(token: Seq<char>) -> ApiRequestView {
    ApiRequestView { token, query: QUERY_WHOAMI@, variables: None }
}

/// The request for the page of `login` that follows `cursor`, or for the
/// first page where there is no cursor.
pub open spec fn page_request_view(
    token: Seq<char>,
    login: Seq<char>,
    cursor: Option<Seq<char>>,
) -> ApiRequestView {
    ApiRequestView {
        token,
        query: QUERY_STARS@,
        variables: Some(PageVariablesView { login, cursor }),
    }
}

/// The JSON value of a cursor: the string, or `null` where there is none.
pub open spec fn cursor_json(cursor: Option<Seq<char>>) -> JsonView {
    match cursor {
        Some(c) => JsonView::Text(c),
        None => JsonView::Null,
    }
}

impl ApiRequestView {
    /// The JSON body of the request: an object with the member `query` and,
    /// for a page query, the member `variables`, an object with the members
    /// `login` and `cursor`.
    pub open spec fn body(self) -> JsonView {
        match self.variables {
            None => JsonView::Object(seq![("query"@, JsonView::Text(self.query))]),
            Some(variables) => JsonView::Object(
                seq![
                    ("query"@, JsonView::Text(self.query)),
                    (
                        "variables"@,
                        JsonView::Object(
                            seq![
                                ("login"@, JsonView::Text(variables.login)),
                                ("cursor"@, cursor_json(variables.cursor)),
                            ],
                        ),
                    ),
                ],
            ),
        }
    }
}

/// Builds the request for the login of the authenticated user.
pub fn identity_request(token: &str) -> (request: ApiRequest)
    ensures
        request@ == identity_request_view(token@),
{
    ApiRequest { token: token.to_owned(), query: QUERY_WHOAMI.to_owned(), variables: None }
}

/// Builds the request for one page of the repositories that `login` has
/// starred: the page after `cursor`, or the first page where `cursor` is
/// absent.
pub fn page_request(token: &str, login: &str, cursor: &Option<String>) -> (request: ApiRequest)
    ensures
        request@ == page_request_view(token@, login@, optional_text(*cursor)),
{
    ApiRequest {
        token: token.to_owned(),
        query: QUERY_STARS.to_owned(),
        variables: Some(PageVariables { login: login.to_owned(), cursor: clone_optional(cursor) }),
    }
}

/// A JSON object with one member.
fn object_of_one(key: &str, value: Json) -> (object: Json)
    ensures
        object@ == JsonView::Object(seq![(key@, value@)]),
{
    let mut members: Vec<(String, Json)> = Vec::new();
    members.push((key.to_owned(), value));
    assert(members@[0].0@ == key@ && members@[0].1@ == value@);
    let object = Json::Object(members);
    assert(object@->Object_0 =~= seq![(key@, value@)]);
    object
}

/// A JSON object with two members, in this order.
fn object_of_two(first_key: &str, first: Json, second_key: &str, second: Json) -> (object: Json)
    ensures
        object@ == JsonView::Object(seq![(first_key@, first@), (second_key@, second@)]),
{
    let mut members: Vec<(String, Json)> = Vec::new();
    members.push((first_key.to_owned(), first));
    members.push((second_key.to_owned(), second));
    assert(members@[0].0@ == first_key@ && members@[0].1@ == first@);
    assert(members@[1].0@ == second_key@ && members@[1].1@ == second@);
    let object = Json::Object(members);
    assert(object@->Object_0 =~= seq![(first_key@, first@), (second_key@, second@)]);
    object
}

impl ApiRequest {
    /// Builds the JSON body of the request.
    pub fn body(&self) -> (body: Json)
        ensures
            body@ == self@.body(),
    {
        let query = Json::Text(self.query.clone());
        match &self.variables {
            None => object_of_one("query", query),
            Some(variables) => {
                let cursor = match &variables.cursor {
                    Some(c) => Json::Text(c.clone()),
                    None => Json::Null,
                };
                let login = Json::Text(variables.login.clone());
                let inner = object_of_two("login", login, "cursor", cursor);
                object_of_two("query", query, "variables", inner)
            },
        }
    }
}

/// A page request carries the cursor it was built with: the member
/// `cursor` of its `variables` is that very string. So a request built with
/// the cursor that an earlier page returned asks for the page after it.
pub proof fn lemma_request_carries_cursor(token: Seq<char>, login: Seq<char>, cursor: Seq<char>)
    ensures
        page_request_view(token, login, Some(cursor)).variables == Some(
            PageVariablesView { login, cursor: Some(cursor) },
        ),
        page_request_view(token, login, Some(cursor)).body().at("variables"@).at("cursor"@)
            == JsonView::Text(cursor),
        page_request_view(token, login, Some(cursor)).body().at("variables"@).at("login"@)
            == JsonView::Text(login),
{
    reveal_strlit("query");
    reveal_strlit("variables");
    reveal_strlit("login");
    reveal_strlit("cursor");
    reveal_with_fuel(crate::json::first_named, 3);
    assert("query"@ != "variables"@) by {
        assert("query"@.len() == 5);
        assert("variables"@.len() == 9);
    }
    assert("login"@ != "cursor"@) by {
        assert("login"@.len() == 5);
        assert("cursor"@.len() == 6);
    }
}

} // verus!
